//! The registry of file-transfer sessions, and the entries of a remote
//! directory listing.

use vstd::prelude::*;
use crate::login::Login;
use crate::login::LoginAction;
use crate::login::LoginProfile;
use crate::login::LoginView;
use crate::registry::str_equal;
use crate::registry::SessionTable;
use crate::session::ErrorKind;
use crate::session::SessionError;
use crate::session::SessionErrorView;
use crate::ssh::SshConnectionView;
use crate::ssh::SshState;
use crate::text::decimal;
use crate::text::decimal_digits;
use crate::text::octal;
use crate::text::octal_digits;
use crate::timestamps::format_timestamp;
use crate::timestamps::modified_text;
use crate::units::render_size;
use crate::units::size_text;

verus! {

/// One row of a remote directory listing.
#[derive(Debug, PartialEq, Eq)]
pub struct FileEntry {
    pub name: String,
    pub entry_type: String,
    pub size: String,
    pub last_modified: String,
    pub permissions: String,
    pub owner: String,
    pub group: String,
}

/// A row as plain values.
pub struct FileEntryView {
    pub name: Seq<char>,
    pub entry_type: Seq<char>,
    pub size: Seq<char>,
    pub last_modified: Seq<char>,
    pub permissions: Seq<char>,
    pub owner: Seq<char>,
    pub group: Seq<char>,
}

impl View for FileEntry {
    type V = FileEntryView;

    open spec fn view(&self) -> FileEntryView {
        FileEntryView {
            name: self.name@,
            entry_type: self.entry_type@,
            size: self.size@,
            last_modified: self.last_modified@,
            permissions: self.permissions@,
            owner: self.owner@,
            group: self.group@,
        }
    }
}

/// The registry of file-transfer sessions, by the identifier of the
/// interactive session that each belongs to.
pub struct SftpState<S> {
    sessions: SessionTable<S>,
}

impl<S> View for SftpState<S> {
    type V = Map<Seq<char>, S>;

    closed spec fn view(&self) -> Map<Seq<char>, S> {
        self.sessions@
    }
}

/// The failure of an operation on a file-transfer session that is not
/// registered.
pub open spec fn sftp_session_missing() -> SessionErrorView {
    SessionErrorView { kind: ErrorKind::NotFound, message: "SFTP session not found"@ }
}

/// The failure of an operation that needs an interactive session that is
/// not registered.
pub open spec fn ssh_session_missing() -> SessionErrorView {
    SessionErrorView { kind: ErrorKind::NotFound, message: "SSH session not found"@ }
}

impl<S> SftpState<S> {
    /// A registry without sessions.
    pub fn new() -> (state: SftpState<S>)
        ensures
            state@ == Map::<Seq<char>, S>::empty(),
    {
        SftpState { sessions: SessionTable::new() }
    }

    /// Whether a session is registered under `id`.
    pub fn contains(&self, id: &str) -> (found: bool)
        ensures
            found == self@.contains_key(id@),
    {
        self.sessions.contains(id)
    }

    /// Registers `session` under `id`, in place of what was there.
    pub fn register(&mut self, id: String, session: S) -> (replaced: Option<S>)
        ensures
            final(self)@ == old(self)@.insert(id@, session),
            replaced == if old(self)@.contains_key(id@) {
                Some(old(self)@[id@])
            } else {
                None::<S>
            },
    {
        self.sessions.insert(id, session)
    }

    /// Takes the session registered under `id` out of the registry.
    pub fn unregister(&mut self, id: &str) -> (removed: Option<S>)
        ensures
            final(self)@ == old(self)@.remove(id@),
            removed == if old(self)@.contains_key(id@) {
                Some(old(self)@[id@])
            } else {
                None::<S>
            },
    {
        self.sessions.remove(id)
    }

    /// The session registered under `id`, or the failure that there is
    /// none.
    pub fn session(&self, id: &str) -> (found: Result<&S, SessionError>)
        ensures
            match found {
                Ok(session) => self@.contains_key(id@) && self@[id@] == *session,
                Err(e) => !self@.contains_key(id@) && e@ == sftp_session_missing(),
            },
    {
        match self.sessions.get(id) {
            Some(session) => Ok(session),
            None => Err(SessionError::new(ErrorKind::NotFound, "SFTP session not found")),
        }
    }
}

/// What the opening of a side session has to do.
pub enum SideLogin {
    /// Nothing: the side session is registered already.
    AlreadyOpen,
    /// A login to the endpoint of the interactive session.
    Open(Login, LoginAction),
}

/// The login that opens a side session for the interactive session
/// `session`.
pub open spec fn side_login_for<H>(profile: LoginProfile, session: SshConnectionView<H>) -> (
    LoginView,
    crate::login::LoginActionView,
) {
    LoginView::start(
        profile,
        session.endpoint.host,
        session.endpoint.port,
        session.endpoint.username,
        session.endpoint.password,
        session.endpoint.private_key,
    )
}

/// Begins the opening of the file-transfer session of interactive session
/// `id`: nothing to do where one is registered already; else a login with
/// the credentials of the interactive session, which must be registered.
pub fn init_sftp<H, S>(ssh_state: &SshState<H>, sftp_state: &SftpState<S>, id: String) -> (r:
    Result<SideLogin, SessionError>)
    ensures
        match r {
            Ok(SideLogin::AlreadyOpen) => sftp_state@.contains_key(id@),
            Ok(SideLogin::Open(login, first)) => !sftp_state@.contains_key(id@)
                && ssh_state@.contains_key(id@) && (login@, first@) == side_login_for(
                LoginProfile::Plain,
                ssh_state@[id@],
            ),
            Err(e) => !sftp_state@.contains_key(id@) && !ssh_state@.contains_key(id@) && e@
                == ssh_session_missing(),
        },
{
    if sftp_state.contains(id.as_str()) {
        return Ok(SideLogin::AlreadyOpen);
    }
    match ssh_state.get(id.as_str()) {
        Some(connection) => {
            let (login, first) = Login::to_endpoint(LoginProfile::Plain, connection.endpoint());
            Ok(SideLogin::Open(login, first))
        },
        None => Err(SessionError::new(ErrorKind::NotFound, "SSH session not found")),
    }
}

/// A transfer to run on a file-transfer session.
pub enum SftpRequest<'a, S> {
    /// List the directory at `path`.
    List { channel: &'a S, path: String },
    /// Copy the remote file to the local path.
    Download { channel: &'a S, remote_path: String, local_path: String },
    /// Copy the local file to the remote path.
    Upload { channel: &'a S, local_path: String, remote_path: String },
}

/// Prepares the listing of the remote directory at `path` on the
/// file-transfer session of `id`; the rows are then made by
/// [`remote_entries`]. Fails where no such session is registered.
pub fn list_directory<'a, S>(state: &'a SftpState<S>, id: String, path: String) -> (r: Result<
    SftpRequest<'a, S>,
    SessionError,
>)
    ensures
        match r {
            Ok(SftpRequest::List { channel, path: p }) => state@.contains_key(id@) && state@[id@]
                == *channel && p@ == path@,
            Ok(_) => false,
            Err(e) => !state@.contains_key(id@) && e@ == sftp_session_missing(),
        },
{
    match state.session(id.as_str()) {
        Ok(channel) => Ok(SftpRequest::List { channel, path }),
        Err(e) => Err(e),
    }
}

/// Prepares the copying of a remote file to this machine. Fails where no
/// file-transfer session is registered under `id`.
pub fn download_file<'a, S>(
    state: &'a SftpState<S>,
    id: String,
    remote_path: String,
    local_path: String,
) -> (r: Result<SftpRequest<'a, S>, SessionError>)
    ensures
        match r {
            Ok(SftpRequest::Download { channel, remote_path: from, local_path: to }) => {
                state@.contains_key(id@) && state@[id@] == *channel && from@ == remote_path@ && to@
                    == local_path@
            },
            Ok(_) => false,
            Err(e) => !state@.contains_key(id@) && e@ == sftp_session_missing(),
        },
{
    match state.session(id.as_str()) {
        Ok(channel) => Ok(SftpRequest::Download { channel, remote_path, local_path }),
        Err(e) => Err(e),
    }
}

/// Prepares the copying of a file of this machine to the remote side.
/// Fails where no file-transfer session is registered under `id`.
pub fn upload_file<'a, S>(
    state: &'a SftpState<S>,
    id: String,
    local_path: String,
    remote_path: String,
) -> (r: Result<SftpRequest<'a, S>, SessionError>)
    ensures
        match r {
            Ok(SftpRequest::Upload { channel, local_path: from, remote_path: to }) => {
                state@.contains_key(id@) && state@[id@] == *channel && from@ == local_path@ && to@
                    == remote_path@
            },
            Ok(_) => false,
            Err(e) => !state@.contains_key(id@) && e@ == sftp_session_missing(),
        },
{
    match state.session(id.as_str()) {
        Ok(channel) => Ok(SftpRequest::Upload { channel, local_path, remote_path }),
        Err(e) => Err(e),
    }
}

/// What a remote directory tells of one of its entries. Any of the numbers
/// may be missing.
#[derive(Debug, Clone, Copy, PartialEq, Eq, Structural)]
pub struct RemoteStat {
    pub is_dir: bool,
    pub size: Option<u64>,
    pub mtime: Option<u64>,
    pub perm: Option<u32>,
    pub uid: Option<u32>,
    pub gid: Option<u32>,
}

/// One entry of a remote directory as it was read.
#[derive(Debug)]
pub struct RemoteItem {
    pub name: String,
    pub stat: RemoteStat,
}

/// A missing number counts as zero.
pub open spec fn or_zero_u64(n: Option<u64>) -> u64 {
    match n {
        Some(v) => v,
        None => 0,
    }
}

/// A missing number counts as zero.
pub open spec fn or_zero_u32(n: Option<u32>) -> u32 {
    match n {
        Some(v) => v,
        None => 0,
    }
}

/// Whether a directory entry names the directory itself or its parent.
pub open spec fn is_dot_entry(name: Seq<char>) -> bool {
    name == seq!['.'] || name == seq!['.', '.']
}

/// What the size column shows for `size` bytes.
pub open spec fn remote_size_text(size: nat) -> Seq<char> {
    if size == 0 {
        seq!['0', ' ', 'B']
    } else {
        size_text(size, seq![' '])
    }
}

/// The size column of a listing: an empty file shows as `0 B`, any other
/// size as the number with one decimal place, a space, the unit.
pub fn format_size(size: u64) -> (s: String)
    ensures
        s@ == remote_size_text(size as nat),
{
    proof {
        reveal_strlit(" ");
        reveal_strlit("0 B");
    }
    if size == 0 {
        let s = String::from_str("0 B");
        assert(s@ =~= seq!['0', ' ', 'B']);
        s
    } else {
        assert(" "@ =~= seq![' ']);
        render_size(size, " ")
    }
}

/// The row for the entry `name` with what the directory tells of it.
pub open spec fn remote_entry(name: Seq<char>, stat: RemoteStat) -> FileEntryView {
    FileEntryView {
        name,
        entry_type: if stat.is_dir {
            "directory"@
        } else {
            "file"@
        },
        size: remote_size_text(or_zero_u64(stat.size) as nat),
        last_modified: modified_text(or_zero_u64(stat.mtime)),
        permissions: octal_digits((or_zero_u32(stat.perm) & 0o777) as nat),
        owner: decimal_digits(or_zero_u32(stat.uid) as nat),
        group: decimal_digits(or_zero_u32(stat.gid) as nat),
    }
}

/// The rows for the given entries, in their order, without the entries for
/// the directory itself and for its parent.
pub open spec fn remote_listing(items: Seq<RemoteItem>) -> Seq<FileEntryView>
    decreases items.len(),
{
    if items.len() == 0 {
        Seq::empty()
    } else if is_dot_entry(items.last().name@) {
        remote_listing(items.drop_last())
    } else {
        remote_listing(items.drop_last()).push(remote_entry(items.last().name@, items.last().stat))
    }
}

/// The rows as plain values.
pub open spec fn entry_views(entries: Seq<FileEntry>) -> Seq<FileEntryView> {
    Seq::new(entries.len(), |i: int| entries[i]@)
}

/// Makes the row for one entry.
pub fn make_remote_entry(name: &str, stat: &RemoteStat) -> (entry: FileEntry)
    ensures
        entry@ == remote_entry(name@, *stat),
{
    let entry_type = if stat.is_dir {
        String::from_str("directory")
    } else {
        String::from_str("file")
    };
    let size: u64 = match stat.size {
        Some(v) => v,
        None => 0,
    };
    let mtime: u64 = match stat.mtime {
        Some(v) => v,
        None => 0,
    };
    let perm: u32 = match stat.perm {
        Some(v) => v,
        None => 0,
    };
    let uid: u32 = match stat.uid {
        Some(v) => v,
        None => 0,
    };
    let gid: u32 = match stat.gid {
        Some(v) => v,
        None => 0,
    };
    FileEntry {
        name: String::from_str(name),
        entry_type,
        size: format_size(size),
        last_modified: format_timestamp(mtime),
        permissions: octal((perm & 0o777) as u64),
        owner: decimal(uid as u64),
        group: decimal(gid as u64),
    }
}

/// Makes the rows of a remote directory listing from the entries as they
/// were read.
pub fn remote_entries(items: &Vec<RemoteItem>) -> (entries: Vec<FileEntry>)
    ensures
        entry_views(entries@) == remote_listing(items@),
{
    proof {
        reveal_strlit(".");
        reveal_strlit("..");
    }
    assert("."@ =~= seq!['.']);
    assert(".."@ =~= seq!['.', '.']);
    let mut entries: Vec<FileEntry> = Vec::new();
    let mut i: usize = 0;
    assert(items@.subrange(0, 0) =~= Seq::<RemoteItem>::empty());
    assert(entry_views(entries@) =~= remote_listing(items@.subrange(0, 0)));
    while i < items.len()
        invariant
            i <= items.len(),
            entry_views(entries@) == remote_listing(items@.subrange(0, i as int)),
            "."@ == seq!['.'],
            ".."@ == seq!['.', '.'],
        decreases items.len() - i,
    {
        let ghost before = entries@;
        assert(items@.subrange(0, i + 1).drop_last() =~= items@.subrange(0, i as int));
        assert(items@.subrange(0, i + 1).last() == items@[i as int]);
        let item = &items[i];
        let dot = str_equal(item.name.as_str(), ".") || str_equal(item.name.as_str(), "..");
        if !dot {
            let entry = make_remote_entry(item.name.as_str(), &item.stat);
            entries.push(entry);
            assert(entry_views(entries@) =~= entry_views(before).push(entry@));
        }
        i += 1;
    }
    assert(items@.subrange(0, i as int) =~= items@);
    entries
}

} // verus!
