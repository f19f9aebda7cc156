//! The registry of remote sessions and the commands on it.
//!
//! A registered session holds the queues of commands that wait for its
//! worker, the endpoint it was opened to, and the handles of its two
//! sessions: the interactive one and the side channel for file transfer.
//! The handles are of a type that the caller chooses; the registry only
//! keeps them.

use vstd::prelude::*;
use vstd::utf8::encode_utf8;
use crate::connect::ConnectAction;
use crate::connect::ConnectView;
use crate::connect::SshConnect;
use crate::local_term::connect_local;
use crate::local_term::LocalConnect;
use crate::local_term::LocalConnectAction;
use crate::local_term::LocalConnectView;
use crate::local_term::LocalState;
use crate::models::PortForwardingRule;
use crate::registry::SessionTable;
use crate::relay::relay_targets;
use crate::relay::targets_of;
use crate::relay::RelayTargetView;
use crate::session::clone_opt_text;
use crate::session::opt_text;
use crate::session::ErrorKind;
use crate::session::SessionError;
use crate::session::SessionErrorView;
use crate::session::ReadOutcomeView;
use crate::session::TerminalSize;
use crate::worker::WorkerActionView;
use crate::worker::WorkerEventView;
use crate::worker::WorkerView;

verus! {

/// Where a remote session connects to, and as whom.
#[derive(Debug)]
pub struct Endpoint {
    pub host: String,
    pub port: u16,
    pub username: String,
    pub password: Option<String>,
    pub private_key: Option<String>,
    pub jump_host_id: Option<i64>,
}

/// An endpoint as plain values.
pub struct EndpointView {
    pub host: Seq<char>,
    pub port: u16,
    pub username: Seq<char>,
    pub password: Option<Seq<char>>,
    pub private_key: Option<Seq<char>>,
    pub jump_host_id: Option<i64>,
}

impl View for Endpoint {
    type V = EndpointView;

    open spec fn view(&self) -> EndpointView {
        EndpointView {
            host: self.host@,
            port: self.port,
            username: self.username@,
            password: opt_text(self.password),
            private_key: opt_text(self.private_key),
            jump_host_id: self.jump_host_id,
        }
    }
}

impl Endpoint {
    /// A copy of the endpoint.
    pub fn duplicate(&self) -> (copy: Endpoint)
        ensures
            copy@ == self@,
    {
        Endpoint {
            host: self.host.clone(),
            port: self.port,
            username: self.username.clone(),
            password: clone_opt_text(&self.password),
            private_key: clone_opt_text(&self.private_key),
            jump_host_id: self.jump_host_id,
        }
    }
}

/// The contents of queued writes.
pub open spec fn byte_seqs(queue: Seq<Vec<u8>>) -> Seq<Seq<u8>> {
    Seq::new(queue.len(), |i: int| queue[i]@)
}

/// A registered remote session.
pub struct SshConnection<H> {
    write_queue: Vec<Vec<u8>>,
    resize_queue: Vec<TerminalSize>,
    endpoint: Endpoint,
    session: Option<H>,
    sftp_session: Option<H>,
}

/// A registered remote session as plain values. The queues hold the oldest
/// command first.
pub struct SshConnectionView<H> {
    pub writes: Seq<Seq<u8>>,
    pub resizes: Seq<TerminalSize>,
    pub endpoint: EndpointView,
    pub session: Option<H>,
    pub sftp_session: Option<H>,
}

impl<H> SshConnectionView<H> {
    /// A session without pending commands.
    pub open spec fn fresh(
        endpoint: EndpointView,
        session: Option<H>,
        sftp_session: Option<H>,
    ) -> SshConnectionView<H> {
        SshConnectionView {
            writes: Seq::empty(),
            resizes: Seq::empty(),
            endpoint,
            session,
            sftp_session,
        }
    }

    /// The session with one more write at the end of its queue.
    pub open spec fn push_write(self, bytes: Seq<u8>) -> SshConnectionView<H> {
        SshConnectionView { writes: self.writes.push(bytes), ..self }
    }

    /// The session without the oldest write.
    pub open spec fn pop_write(self) -> SshConnectionView<H> {
        SshConnectionView { writes: self.writes.drop_first(), ..self }
    }

    /// The session with one more resize at the end of its queue.
    pub open spec fn push_resize(self, size: TerminalSize) -> SshConnectionView<H> {
        SshConnectionView { resizes: self.resizes.push(size), ..self }
    }

    /// The session without the oldest resize.
    pub open spec fn pop_resize(self) -> SshConnectionView<H> {
        SshConnectionView { resizes: self.resizes.drop_first(), ..self }
    }
}

impl<H> View for SshConnection<H> {
    type V = SshConnectionView<H>;

    closed spec fn view(&self) -> SshConnectionView<H> {
        SshConnectionView {
            writes: byte_seqs(self.write_queue@),
            resizes: self.resize_queue@,
            endpoint: self.endpoint@,
            session: self.session,
            sftp_session: self.sftp_session,
        }
    }
}

impl<H> SshConnection<H> {
    /// A session to `endpoint` with the given handles and no pending
    /// commands.
    pub fn new(endpoint: Endpoint, session: Option<H>, sftp_session: Option<H>) -> (connection:
        SshConnection<H>)
        ensures
            connection@ == SshConnectionView::fresh(endpoint@, session, sftp_session),
    {
        let connection = SshConnection {
            write_queue: Vec::new(),
            resize_queue: Vec::new(),
            endpoint,
            session,
            sftp_session,
        };
        assert(byte_seqs(connection.write_queue@) =~= Seq::<Seq<u8>>::empty());
        connection
    }

    /// Where the session is connected to.
    pub fn endpoint(&self) -> (endpoint: &Endpoint)
        ensures
            endpoint@ == self@.endpoint,
    {
        &self.endpoint
    }

    /// The handle of the interactive session.
    pub fn session(&self) -> (handle: Option<&H>)
        ensures
            match handle {
                Some(h) => self@.session == Some(*h),
                None => self@.session is None,
            },
    {
        self.session.as_ref()
    }

    /// The handle of the side channel for file transfer.
    pub fn sftp_session(&self) -> (handle: Option<&H>)
        ensures
            match handle {
                Some(h) => self@.sftp_session == Some(*h),
                None => self@.sftp_session is None,
            },
    {
        self.sftp_session.as_ref()
    }

    /// The number of writes that wait for the worker.
    pub fn pending_writes(&self) -> (n: usize)
        ensures
            n == self@.writes.len(),
    {
        self.write_queue.len()
    }

    /// The number of resizes that wait for the worker.
    pub fn pending_resizes(&self) -> (n: usize)
        ensures
            n == self@.resizes.len(),
    {
        self.resize_queue.len()
    }

    /// Puts a write at the end of the queue.
    pub fn push_write(&mut self, bytes: Vec<u8>)
        ensures
            final(self)@ == old(self)@.push_write(bytes@),
    {
        self.write_queue.push(bytes);
        assert(byte_seqs(self.write_queue@) =~= byte_seqs(old(self).write_queue@).push(bytes@));
    }

    /// Takes the oldest write off the queue.
    pub fn pop_write(&mut self) -> (bytes: Option<Vec<u8>>)
        ensures
            match bytes {
                Some(b) => old(self)@.writes.len() > 0 && b@ == old(self)@.writes[0] && final(self)@ == old(self)@.pop_write(),
                None => old(self)@.writes.len() == 0 && final(self)@ == old(self)@,
            },
    {
        if self.write_queue.len() > 0 {
            let bytes = self.write_queue.remove(0);
            assert(byte_seqs(self.write_queue@) =~= byte_seqs(old(self).write_queue@).drop_first());
            Some(bytes)
        } else {
            None
        }
    }

    /// Puts a resize at the end of the queue.
    pub fn push_resize(&mut self, size: TerminalSize)
        ensures
            final(self)@ == old(self)@.push_resize(size),
    {
        self.resize_queue.push(size);
    }

    /// Takes the oldest resize off the queue.
    pub fn pop_resize(&mut self) -> (size: Option<TerminalSize>)
        ensures
            match size {
                Some(s) => old(self)@.resizes.len() > 0 && s == old(self)@.resizes[0] && final(self)@ == old(self)@.pop_resize(),
                None => old(self)@.resizes.len() == 0 && final(self)@ == old(self)@,
            },
    {
        if self.resize_queue.len() > 0 {
            let size = self.resize_queue.remove(0);
            assert(self.resize_queue@ =~= old(self).resize_queue@.drop_first());
            Some(size)
        } else {
            None
        }
    }
}

/// The registry after a write for `id`: the bytes wait at the end of the
/// session's queue; nothing changes where no session has that identifier.
pub open spec fn sessions_after_write<H>(
    sessions: Map<Seq<char>, SshConnectionView<H>>,
    id: Seq<char>,
    bytes: Seq<u8>,
) -> Map<Seq<char>, SshConnectionView<H>> {
    if sessions.contains_key(id) {
        sessions.insert(id, sessions[id].push_write(bytes))
    } else {
        sessions
    }
}

/// The registry after a resize for `id`.
pub open spec fn sessions_after_resize<H>(
    sessions: Map<Seq<char>, SshConnectionView<H>>,
    id: Seq<char>,
    size: TerminalSize,
) -> Map<Seq<char>, SshConnectionView<H>> {
    if sessions.contains_key(id) {
        sessions.insert(id, sessions[id].push_resize(size))
    } else {
        sessions
    }
}

/// The write that the worker of `id` takes next, if one waits.
pub open spec fn next_write<H>(
    sessions: Map<Seq<char>, SshConnectionView<H>>,
    id: Seq<char>,
) -> Option<Seq<u8>> {
    if sessions.contains_key(id) && sessions[id].writes.len() > 0 {
        Some(sessions[id].writes[0])
    } else {
        None
    }
}

/// The registry after the worker of `id` took a write.
pub open spec fn sessions_after_take_write<H>(
    sessions: Map<Seq<char>, SshConnectionView<H>>,
    id: Seq<char>,
) -> Map<Seq<char>, SshConnectionView<H>> {
    if sessions.contains_key(id) && sessions[id].writes.len() > 0 {
        sessions.insert(id, sessions[id].pop_write())
    } else {
        sessions
    }
}

/// The resize that the worker of `id` takes next, if one waits.
pub open spec fn next_resize<H>(
    sessions: Map<Seq<char>, SshConnectionView<H>>,
    id: Seq<char>,
) -> Option<TerminalSize> {
    if sessions.contains_key(id) && sessions[id].resizes.len() > 0 {
        Some(sessions[id].resizes[0])
    } else {
        None
    }
}

/// The registry after the worker of `id` took a resize.
pub open spec fn sessions_after_take_resize<H>(
    sessions: Map<Seq<char>, SshConnectionView<H>>,
    id: Seq<char>,
) -> Map<Seq<char>, SshConnectionView<H>> {
    if sessions.contains_key(id) && sessions[id].resizes.len() > 0 {
        sessions.insert(id, sessions[id].pop_resize())
    } else {
        sessions
    }
}

/// The registry of remote sessions.
pub struct SshState<H> {
    sessions: SessionTable<SshConnection<H>>,
}

impl<H> View for SshState<H> {
    type V = Map<Seq<char>, SshConnectionView<H>>;

    closed spec fn view(&self) -> Map<Seq<char>, SshConnectionView<H>> {
        Map::new(
            |k: Seq<char>| self.sessions@.contains_key(k),
            |k: Seq<char>| self.sessions@[k]@,
        )
    }
}

impl<H> SshState<H> {
    /// A registry without sessions.
    pub fn new() -> (state: SshState<H>)
        ensures
            state@ == Map::<Seq<char>, SshConnectionView<H>>::empty(),
    {
        let state = SshState { sessions: SessionTable::new() };
        assert(state@ =~= Map::<Seq<char>, SshConnectionView<H>>::empty());
        state
    }

    /// Whether a session is registered under `id`.
    pub fn contains(&self, id: &str) -> (found: bool)
        ensures
            found == self@.contains_key(id@),
    {
        self.sessions.contains(id)
    }

    /// The number of registered sessions.
    pub fn len(&self) -> (n: usize)
        ensures
            n == self@.len(),
            self@.dom().finite(),
    {
        let n = self.sessions.len();
        assert(self@.dom() =~= self.sessions@.dom());
        n
    }

    /// The session registered under `id`.
    pub fn get(&self, id: &str) -> (found: Option<&SshConnection<H>>)
        ensures
            match found {
                Some(connection) => self@.contains_key(id@) && self@[id@] == connection@,
                None => !self@.contains_key(id@),
            },
    {
        self.sessions.get(id)
    }

    /// The identifiers of the registered sessions, in no particular order.
    pub fn ids(&self) -> (ids: Vec<String>)
        ensures
            ids.len() == self@.len(),
            forall|k: Seq<char>|
                self@.contains_key(k) <==> exists|i: int|
                    0 <= i < ids.len() && (#[trigger] ids[i])@ == k,
    {
        let ids = self.sessions.ids();
        assert(self@.dom() =~= self.sessions@.dom());
        ids
    }

    /// Registers `connection` under `id`. A session that was registered
    /// under `id` before is replaced and handed back.
    pub fn register(&mut self, id: String, connection: SshConnection<H>) -> (replaced: Option<
        SshConnection<H>,
    >)
        ensures
            final(self)@ == old(self)@.insert(id@, connection@),
            match replaced {
                Some(previous) => old(self)@.contains_key(id@) && old(self)@[id@] == previous@,
                None => !old(self)@.contains_key(id@),
            },
    {
        let replaced = self.sessions.insert(id, connection);
        assert(self@ =~= old(self)@.insert(id@, connection@));
        replaced
    }

    /// Takes the session registered under `id` out of the registry.
    pub fn unregister(&mut self, id: &str) -> (removed: Option<SshConnection<H>>)
        ensures
            final(self)@ == old(self)@.remove(id@),
            match removed {
                Some(previous) => old(self)@.contains_key(id@) && old(self)@[id@] == previous@,
                None => !old(self)@.contains_key(id@),
            },
    {
        let removed = self.sessions.remove(id);
        assert(self@ =~= old(self)@.remove(id@));
        removed
    }
}

/// Queues `data` for the worker of session `id`, behind what is queued
/// already. Without such a session nothing happens. Never fails.
pub fn write_ssh<H>(state: &mut SshState<H>, id: String, data: String) -> (done: Result<
    (),
    String,
>)
    ensures
        done is Ok,
        final(state)@ == sessions_after_write(old(state)@, id@, encode_utf8(data@)),
{
    let bytes = data.as_str().as_bytes_vec();
    match state.unregister(id.as_str()) {
        Some(mut connection) => {
            connection.push_write(bytes);
            state.register(id, connection);
            assert(final(state)@ =~= sessions_after_write(old(state)@, id@, encode_utf8(data@)));
        },
        None => {
            assert(state@ =~= old(state)@);
        },
    }
    Ok(())
}

/// Queues a new terminal size for the worker of session `id`. Without such
/// a session nothing happens. Never fails.
pub fn resize_ssh<H>(state: &mut SshState<H>, id: String, cols: u32, rows: u32) -> (done: Result<
    (),
    String,
>)
    ensures
        done is Ok,
        final(state)@ == sessions_after_resize(old(state)@, id@, TerminalSize { cols, rows }),
{
    match state.unregister(id.as_str()) {
        Some(mut connection) => {
            connection.push_resize(TerminalSize { cols, rows });
            state.register(id, connection);
            assert(final(state)@ =~= sessions_after_resize(
                old(state)@,
                id@,
                TerminalSize { cols, rows },
            ));
        },
        None => {
            assert(state@ =~= old(state)@);
        },
    }
    Ok(())
}

/// Removes session `id` from the registry, with its queues and handles.
/// Without such a session nothing happens. Never fails.
pub fn disconnect_ssh<H>(state: &mut SshState<H>, id: String) -> (done: Result<(), String>)
    ensures
        done is Ok,
        final(state)@ == old(state)@.remove(id@),
{
    let _ = state.unregister(id.as_str());
    Ok(())
}

/// Takes the oldest queued write of session `id` for its worker.
pub fn take_write<H>(state: &mut SshState<H>, id: &str) -> (bytes: Option<Vec<u8>>)
    ensures
        match bytes {
            Some(b) => Some(b@) == next_write(old(state)@, id@),
            None => next_write(old(state)@, id@) is None,
        },
        final(state)@ == sessions_after_take_write(old(state)@, id@),
{
    match state.unregister(id) {
        Some(mut connection) => {
            let bytes = connection.pop_write();
            state.register(String::from_str(id), connection);
            assert(final(state)@ =~= sessions_after_take_write(old(state)@, id@));
            bytes
        },
        None => {
            assert(state@ =~= old(state)@);
            None
        },
    }
}

/// Takes the oldest queued resize of session `id` for its worker.
pub fn take_resize<H>(state: &mut SshState<H>, id: &str) -> (size: Option<TerminalSize>)
    ensures
        size == next_resize(old(state)@, id@),
        final(state)@ == sessions_after_take_resize(old(state)@, id@),
{
    match state.unregister(id) {
        Some(mut connection) => {
            let size = connection.pop_resize();
            state.register(String::from_str(id), connection);
            assert(final(state)@ =~= sessions_after_take_resize(old(state)@, id@));
            size
        },
        None => {
            assert(state@ =~= old(state)@);
            None
        },
    }
}

/// A file operation to run on the side channel of a session.
pub enum FileRequest<'a, H> {
    /// Read the whole file at `path`.
    Read { channel: &'a H, path: String },
    /// Create the file at `path` with the given content.
    Write { channel: &'a H, path: String, content: Vec<u8> },
}

/// The message of a file operation that finds no side channel.
pub open spec fn side_channel_missing() -> SessionErrorView {
    SessionErrorView {
        kind: ErrorKind::NotFound,
        message: "Session not found or SFTP unavailable"@,
    }
}

/// The side channel of session `id`, if the session is registered and has
/// one.
pub open spec fn side_channel_of<H>(
    sessions: Map<Seq<char>, SshConnectionView<H>>,
    id: Seq<char>,
) -> Option<H> {
    if sessions.contains_key(id) {
        sessions[id].sftp_session
    } else {
        None
    }
}

fn side_channel<'a, H>(state: &'a SshState<H>, id: &str) -> (channel: Result<&'a H, SessionError>)
    ensures
        match channel {
            Ok(handle) => side_channel_of(state@, id@) == Some(*handle),
            Err(e) => side_channel_of(state@, id@) is None && e@ == side_channel_missing(),
        },
{
    match state.get(id) {
        Some(connection) => match connection.sftp_session() {
            Some(handle) => Ok(handle),
            None => Err(
                SessionError::new(ErrorKind::NotFound, "Session not found or SFTP unavailable"),
            ),
        },
        None => Err(SessionError::new(ErrorKind::NotFound, "Session not found or SFTP unavailable")),
    }
}

/// Prepares the reading of the remote file at `path` over the side channel
/// of session `id`. Fails where the session is unknown or has no side
/// channel.
pub fn read_remote_file<'a, H>(state: &'a SshState<H>, id: String, path: String) -> (request:
    Result<FileRequest<'a, H>, SessionError>)
    ensures
        match request {
            Ok(FileRequest::Read { channel, path: p }) => side_channel_of(state@, id@) == Some(
                *channel,
            ) && p@ == path@,
            Ok(FileRequest::Write { .. }) => false,
            Err(e) => side_channel_of(state@, id@) is None && e@ == side_channel_missing(),
        },
{
    match side_channel(state, id.as_str()) {
        Ok(channel) => Ok(FileRequest::Read { channel, path }),
        Err(e) => Err(e),
    }
}

/// Prepares the writing of `content` to the remote file at `path` over the
/// side channel of session `id`. Fails where the session is unknown or has
/// no side channel.
pub fn write_remote_file<'a, H>(
    state: &'a SshState<H>,
    id: String,
    path: String,
    content: String,
) -> (request: Result<FileRequest<'a, H>, SessionError>)
    ensures
        match request {
            Ok(FileRequest::Write { channel, path: p, content: c }) => side_channel_of(
                state@,
                id@,
            ) == Some(*channel) && p@ == path@ && c@ == encode_utf8(content@),
            Ok(FileRequest::Read { .. }) => false,
            Err(e) => side_channel_of(state@, id@) is None && e@ == side_channel_missing(),
        },
{
    match side_channel(state, id.as_str()) {
        Ok(channel) => {
            let bytes = content.as_str().as_bytes_vec();
            Ok(FileRequest::Write { channel, path, content: bytes })
        },
        Err(e) => Err(e),
    }
}

/// The tunnels that the forwarding rules of a connect request call for.
pub open spec fn targets_of_rules(rules: Option<Vec<PortForwardingRule>>) -> Seq<RelayTargetView> {
    match rules {
        Some(list) => targets_of(list@),
        None => Seq::empty(),
    }
}

/// Begins a connect request for remote session `id`. Where the session is
/// registered already, the request ends at once with success; else it asks
/// for its first action: the lookup of the jump host where one is named, or
/// the connection to `host` and `port`.
pub fn connect_ssh<H>(
    state: &SshState<H>,
    id: String,
    host: String,
    port: u16,
    username: String,
    password: Option<String>,
    private_key: Option<String>,
    forwarding_rules: Option<Vec<PortForwardingRule>>,
    jump_host_id: Option<i64>,
) -> (r: (SshConnect, ConnectAction))
    ensures
        (r.0@, r.1@) == ConnectView::start(
            state@.contains_key(id@),
            id@,
            EndpointView {
                host: host@,
                port,
                username: username@,
                password: opt_text(password),
                private_key: opt_text(private_key),
                jump_host_id,
            },
            targets_of_rules(forwarding_rules),
        ),
{
    let registered = state.contains(id.as_str());
    let targets = match &forwarding_rules {
        Some(rules) => relay_targets(rules),
        None => {
            let none: Vec<crate::relay::RelayTarget> = Vec::new();
            assert(crate::relay::target_views(none@) =~= Seq::<RelayTargetView>::empty());
            none
        },
    };
    let endpoint = Endpoint { host, port, username, password, private_key, jump_host_id };
    SshConnect::begin(registered, id, endpoint, targets)
}

/// The opening of a copy of a session.
pub enum Duplicate {
    /// The source is a remote session: a connect request to its endpoint.
    Remote(SshConnect, ConnectAction),
    /// The source is a local session: the opening of another local session.
    Local(LocalConnect, LocalConnectAction),
}

/// The failure of a duplication whose source is not registered.
pub open spec fn source_missing() -> SessionErrorView {
    SessionErrorView { kind: ErrorKind::NotFound, message: "Source session not found"@ }
}

/// The width of the terminal of a duplicated local session.
pub const DUPLICATE_COLS: u16 = 80;

/// The height of the terminal of a duplicated local session.
pub const DUPLICATE_ROWS: u16 = 24;

/// Begins the opening of session `new_id` as a copy of session `source_id`.
///
/// A remote source gives a connect request to the same endpoint with the
/// same credentials and jump host, without forwarding rules. A local source
/// gives the opening of a local session of the default size. A source that
/// is in neither registry gives the failure that the source was not found.
/// Neither registry changes.
pub fn duplicate_session<H, C>(
    state: &SshState<H>,
    local_state: &LocalState<C>,
    source_id: String,
    new_id: String,
) -> (r: Result<Duplicate, SessionError>)
    ensures
        match r {
            Ok(Duplicate::Remote(request, first)) => state@.contains_key(source_id@) && (
                request@,
                first@,
            ) == ConnectView::start(
                state@.contains_key(new_id@),
                new_id@,
                state@[source_id@].endpoint,
                Seq::empty(),
            ),
            Ok(Duplicate::Local(opening, first)) => !state@.contains_key(source_id@)
                && local_state@.contains_key(source_id@) && (opening@, first@)
                == LocalConnectView::start(
                local_state@.contains_key(new_id@),
                new_id@,
                DUPLICATE_COLS,
                DUPLICATE_ROWS,
            ),
            Err(e) => !state@.contains_key(source_id@) && !local_state@.contains_key(source_id@)
                && e@ == source_missing(),
        },
{
    match state.get(source_id.as_str()) {
        Some(source) => {
            let endpoint = source.endpoint().duplicate();
            let registered = state.contains(new_id.as_str());
            let none: Vec<crate::relay::RelayTarget> = Vec::new();
            assert(crate::relay::target_views(none@) =~= Seq::<RelayTargetView>::empty());
            let (request, first) = SshConnect::begin(registered, new_id, endpoint, none);
            Ok(Duplicate::Remote(request, first))
        },
        None => {
            if local_state.contains(source_id.as_str()) {
                let (opening, first) = connect_local(
                    local_state,
                    new_id,
                    DUPLICATE_COLS,
                    DUPLICATE_ROWS,
                );
                Ok(Duplicate::Local(opening, first))
            } else {
                Err(SessionError::new(ErrorKind::NotFound, "Source session not found"))
            }
        },
    }
}

/// For an identifier that no session is registered under, a write, a resize
/// and a disconnect leave the registry as it is.
pub proof fn lemma_unknown_session_commands_do_nothing<H>(
    sessions: Map<Seq<char>, SshConnectionView<H>>,
    id: Seq<char>,
    bytes: Seq<u8>,
    size: TerminalSize,
)
    requires
        !sessions.contains_key(id),
    ensures
        sessions_after_write(sessions, id, bytes) == sessions,
        sessions_after_resize(sessions, id, size) == sessions,
        sessions.remove(id) == sessions,
        next_write(sessions, id) is None,
        next_resize(sessions, id) is None,
{
    assert(sessions.remove(id) =~= sessions);
}

/// Writes reach the worker in the order in which they were made: after a
/// write of `first` and then a write of `second`, the two wait behind what
/// was queued before, `first` ahead of `second`; and where nothing was
/// queued before, the worker takes `first`, then `second`, then nothing.
pub proof fn lemma_writes_keep_their_order<H>(
    sessions: Map<Seq<char>, SshConnectionView<H>>,
    id: Seq<char>,
    first: Seq<u8>,
    second: Seq<u8>,
)
    requires
        sessions.contains_key(id),
    ensures
        ({
            let written = sessions_after_write(
                sessions_after_write(sessions, id, first),
                id,
                second,
            );
            let taken_once = sessions_after_take_write(written, id);
            let taken_twice = sessions_after_take_write(taken_once, id);
            &&& written.contains_key(id)
            &&& written[id].writes == sessions[id].writes.push(first).push(second)
            &&& sessions[id].writes.len() == 0 ==> {
                &&& next_write(written, id) == Some(first)
                &&& next_write(taken_once, id) == Some(second)
                &&& next_write(taken_twice, id) is None
            }
        }),
{
    let written = sessions_after_write(sessions_after_write(sessions, id, first), id, second);
    let taken_once = sessions_after_take_write(written, id);
    if sessions[id].writes.len() == 0 {
        assert(written[id].writes.drop_first() =~= seq![second]);
        assert(taken_once[id].writes.drop_first() =~= Seq::<Seq<u8>>::empty());
    }
}

/// A disconnect takes the session out of the registry and nothing else; a
/// second disconnect changes nothing more.
pub proof fn lemma_disconnect_is_idempotent<H>(
    sessions: Map<Seq<char>, SshConnectionView<H>>,
    id: Seq<char>,
)
    ensures
        !sessions.remove(id).contains_key(id),
        sessions.remove(id).remove(id) == sessions.remove(id),
        forall|k: Seq<char>|
            k != id ==> (sessions.remove(id).contains_key(k) <==> sessions.contains_key(k)),
{
    assert(sessions.remove(id).remove(id) =~= sessions.remove(id));
}

/// What the worker of `id` is told when it asks for a pending write: the
/// oldest write that waits, if one does.
pub open spec fn write_poll_answer<H>(
    sessions: Map<Seq<char>, SshConnectionView<H>>,
    id: Seq<char>,
) -> WorkerEventView {
    match next_write(sessions, id) {
        Some(bytes) => WorkerEventView::WriteCommand(bytes),
        None => WorkerEventView::Tick,
    }
}

/// Two writes that are made before the worker takes either reach the
/// transport in the order in which they were made: the worker, asking the
/// registry at the start of each iteration, writes `first` in one
/// iteration and `second` in the next, and nothing else in between.
pub proof fn lemma_queued_writes_reach_the_transport_in_order<H>(
    sessions: Map<Seq<char>, SshConnectionView<H>>,
    worker: WorkerView,
    first: Seq<u8>,
    second: Seq<u8>,
)
    requires
        sessions.contains_key(worker.id),
        sessions[worker.id].writes.len() == 0,
        worker.phase is PollingWrite,
    ensures
        ({
            let id = worker.id;
            let written = sessions_after_write(
                sessions_after_write(sessions, id, first),
                id,
                second,
            );
            let taken_once = sessions_after_take_write(written, id);
            let events = seq![
                write_poll_answer(written, id),
                WorkerEventView::Tick,
                WorkerEventView::Tick,
                WorkerEventView::Read(ReadOutcomeView::WouldBlock),
                write_poll_answer(taken_once, id),
            ];
            worker.actions(events) == seq![
                WorkerActionView::WriteTransport(first),
                WorkerActionView::PollResize,
                WorkerActionView::ReadTransport,
                WorkerActionView::PollWrite,
                WorkerActionView::WriteTransport(second),
            ]
        }),
{
    let id = worker.id;
    lemma_writes_keep_their_order(sessions, id, first, second);
    let written = sessions_after_write(sessions_after_write(sessions, id, first), id, second);
    let taken_once = sessions_after_take_write(written, id);
    let events = seq![
        write_poll_answer(written, id),
        WorkerEventView::Tick,
        WorkerEventView::Tick,
        WorkerEventView::Read(ReadOutcomeView::WouldBlock),
        write_poll_answer(taken_once, id),
    ];
    let e4 = events.drop_last();
    let e3 = e4.drop_last();
    let e2 = e3.drop_last();
    let e1 = e2.drop_last();
    assert(e1.drop_last() =~= Seq::<WorkerEventView>::empty());
    assert(worker.after(e1.drop_last()) == worker);
    assert(worker.actions(e1.drop_last()) =~= Seq::<WorkerActionView>::empty());
    assert(worker.actions(e1) =~= seq![WorkerActionView::WriteTransport(first)]);
    assert(worker.actions(e2) =~= seq![
        WorkerActionView::WriteTransport(first),
        WorkerActionView::PollResize,
    ]);
    assert(worker.actions(e3) =~= seq![
        WorkerActionView::WriteTransport(first),
        WorkerActionView::PollResize,
        WorkerActionView::ReadTransport,
    ]);
    assert(worker.actions(e4) =~= seq![
        WorkerActionView::WriteTransport(first),
        WorkerActionView::PollResize,
        WorkerActionView::ReadTransport,
        WorkerActionView::PollWrite,
    ]);
    assert(worker.actions(events) =~= seq![
        WorkerActionView::WriteTransport(first),
        WorkerActionView::PollResize,
        WorkerActionView::ReadTransport,
        WorkerActionView::PollWrite,
        WorkerActionView::WriteTransport(second),
    ]);
}

} // verus!
