//! What the parts of the session core share: the kinds of transport, the
//! outcome of a read, the error taxonomy and the names of the events that go
//! to the user interface.

use vstd::prelude::*;

verus! {

/// The two kinds of transport behind a session.
#[derive(Debug, Clone, Copy, PartialEq, Eq, Structural)]
pub enum TransportKind {
    /// A pseudo-terminal with a child process on this machine.
    Local,
    /// A shell channel over an authenticated remote session.
    Remote,
}

/// The size of a terminal in character cells.
#[derive(Debug, Clone, Copy, PartialEq, Eq, Structural)]
pub struct TerminalSize {
    pub cols: u32,
    pub rows: u32,
}

/// What one non-blocking read from a transport gave.
#[derive(Debug, PartialEq, Eq)]
pub enum ReadOutcome {
    /// Bytes arrived.
    Data(Vec<u8>),
    /// Nothing is there to read right now.
    WouldBlock,
    /// The other side has closed.
    Eof,
    /// The read failed for another reason.
    Failed(String),
}

/// A read outcome as plain values.
pub enum ReadOutcomeView {
    Data(Seq<u8>),
    WouldBlock,
    Eof,
    Failed(Seq<char>),
}

impl View for ReadOutcome {
    type V = ReadOutcomeView;

    open spec fn view(&self) -> ReadOutcomeView {
        match *self {
            ReadOutcome::Data(bytes) => ReadOutcomeView::Data(bytes@),
            ReadOutcome::WouldBlock => ReadOutcomeView::WouldBlock,
            ReadOutcome::Eof => ReadOutcomeView::Eof,
            ReadOutcome::Failed(reason) => ReadOutcomeView::Failed(reason@),
        }
    }
}

impl ReadOutcomeView {
    /// The read brought at least one byte.
    pub open spec fn has_data(self) -> bool {
        self matches ReadOutcomeView::Data(bytes) && bytes.len() > 0
    }

    /// The read showed that the transport is gone.
    pub open spec fn is_terminal(self) -> bool {
        self is Eof || self is Failed
    }
}

/// What a read call on a transport gave, before it is told apart from the
/// end of the stream.
#[derive(Debug, PartialEq, Eq)]
pub enum RawRead {
    /// So many bytes were read into the buffer.
    Count(usize),
    /// The call would have had to wait.
    WouldBlock,
    /// The call failed for another reason.
    Failed(String),
}

/// A raw read as plain values.
pub enum RawReadView {
    Count(nat),
    WouldBlock,
    Failed(Seq<char>),
}

impl View for RawRead {
    type V = RawReadView;

    open spec fn view(&self) -> RawReadView {
        match *self {
            RawRead::Count(n) => RawReadView::Count(n as nat),
            RawRead::WouldBlock => RawReadView::WouldBlock,
            RawRead::Failed(reason) => RawReadView::Failed(reason@),
        }
    }
}

impl RawReadView {
    /// Whether the bytes that the read counts lie within a buffer of `len`
    /// bytes.
    pub open spec fn fits(self, len: nat) -> bool {
        match self {
            RawReadView::Count(n) => n <= len,
            _ => true,
        }
    }
}

/// The outcome of a read: the bytes that were read, if there are any; for a
/// read of no bytes the end of the stream where the transport says that it
/// is at its end, else nothing to read; nothing to read where the call
/// would have had to wait; and the failure where it failed.
pub open spec fn read_outcome_of(raw: RawReadView, buffer: Seq<u8>, at_end: bool) -> ReadOutcomeView {
    match raw {
        RawReadView::Count(n) => if n > 0 {
            ReadOutcomeView::Data(buffer.subrange(0, n as int))
        } else if at_end {
            ReadOutcomeView::Eof
        } else {
            ReadOutcomeView::WouldBlock
        },
        RawReadView::WouldBlock => ReadOutcomeView::WouldBlock,
        RawReadView::Failed(reason) => ReadOutcomeView::Failed(reason),
    }
}

/// Tells what a read gave. `buffer` is the buffer that was read into, and
/// `at_end` says whether the transport holds itself to be at its end.
pub fn classify_read(raw: RawRead, buffer: &[u8], at_end: bool) -> (outcome: ReadOutcome)
    requires
        raw@.fits(buffer@.len()),
    ensures
        outcome@ == read_outcome_of(raw@, buffer@, at_end),
{
    match raw {
        RawRead::Count(n) => {
            if n > 0 {
                let mut data: Vec<u8> = Vec::new();
                let mut i: usize = 0;
                while i < n
                    invariant
                        i <= n <= buffer@.len(),
                        data@ == buffer@.subrange(0, i as int),
                    decreases n - i,
                {
                    data.push(buffer[i]);
                    assert(data@ =~= buffer@.subrange(0, i + 1));
                    i += 1;
                }
                ReadOutcome::Data(data)
            } else if at_end {
                ReadOutcome::Eof
            } else {
                ReadOutcome::WouldBlock
            }
        },
        RawRead::WouldBlock => ReadOutcome::WouldBlock,
        RawRead::Failed(reason) => ReadOutcome::Failed(reason),
    }
}

/// A read that is classified never gives bytes without a byte, and gives
/// the end of the stream only for a read of no bytes on a transport that is
/// at its end.
pub proof fn lemma_read_outcome(raw: RawReadView, buffer: Seq<u8>, at_end: bool)
    requires
        raw.fits(buffer.len()),
    ensures
        read_outcome_of(raw, buffer, at_end) matches ReadOutcomeView::Data(bytes) ==> bytes.len()
            > 0 && raw == RawReadView::Count(bytes.len()),
        read_outcome_of(raw, buffer, at_end) is Eof <==> raw == RawReadView::Count(0) && at_end,
{
}

/// The classes of failure.
#[derive(Debug, Clone, Copy, PartialEq, Eq, Structural)]
pub enum ErrorKind {
    /// Connecting or the handshake failed.
    Network,
    /// No credential was given, or the given one was refused.
    Auth,
    /// Input or output failed after the handshake.
    Transport,
    /// Nothing is known under the given identifier.
    NotFound,
    /// The destination of a forwarded connection could not be reached.
    Relay,
}

/// A failure with its class and the message for the user.
#[derive(Debug, PartialEq, Eq)]
pub struct SessionError {
    pub kind: ErrorKind,
    pub message: String,
}

/// A failure as plain values.
pub struct SessionErrorView {
    pub kind: ErrorKind,
    pub message: Seq<char>,
}

impl View for SessionError {
    type V = SessionErrorView;

    open spec fn view(&self) -> SessionErrorView {
        SessionErrorView { kind: self.kind, message: self.message@ }
    }
}

impl SessionError {
    /// A failure of class `kind` with the given message.
    pub fn new(kind: ErrorKind, message: &str) -> (e: SessionError)
        ensures
            e@ == (SessionErrorView { kind, message: message@ }),
    {
        SessionError { kind, message: String::from_str(message) }
    }

    /// A failure of class `kind` whose message is `prefix` followed by
    /// `detail`.
    pub fn with_detail(kind: ErrorKind, prefix: &str, detail: &str) -> (e: SessionError)
        ensures
            e@ == (SessionErrorView { kind, message: prefix@ + detail@ }),
    {
        let mut message = String::from_str(prefix);
        message.append(detail);
        SessionError { kind, message }
    }

    /// The message for the user.
    pub fn to_string(&self) -> (message: String)
        ensures
            message@ == self@.message,
    {
        self.message.clone()
    }
}

/// The name of a kind of transport in event names.
pub open spec fn kind_name(kind: TransportKind) -> Seq<char> {
    match kind {
        TransportKind::Local => seq!['l', 'o', 'c', 'a', 'l'],
        TransportKind::Remote => seq!['s', 's', 'h'],
    }
}

/// The name of the event that carries output of session `id`.
pub open spec fn data_event_name(kind: TransportKind, id: Seq<char>) -> Seq<char> {
    kind_name(kind) + seq!['_', 'd', 'a', 't', 'a', '_'] + id
}

/// The name of the event that tells that session `id` has closed.
pub open spec fn close_event_name(kind: TransportKind, id: Seq<char>) -> Seq<char> {
    kind_name(kind) + seq!['_', 'c', 'l', 'o', 's', 'e', '_'] + id
}

fn kind_str(kind: TransportKind) -> (name: &'static str)
    ensures
        name@ == kind_name(kind),
{
    proof {
        reveal_strlit("local");
        reveal_strlit("ssh");
    }
    let name = match kind {
        TransportKind::Local => "local",
        TransportKind::Remote => "ssh",
    };
    assert(name@ =~= kind_name(kind));
    name
}

/// The name of the event that carries output of session `id`.
pub fn data_event(kind: TransportKind, id: &str) -> (name: String)
    ensures
        name@ == data_event_name(kind, id@),
{
    proof {
        reveal_strlit("_data_");
    }
    let mut name = String::from_str(kind_str(kind));
    name.append("_data_");
    name.append(id);
    assert(name@ =~= data_event_name(kind, id@));
    name
}

/// The name of the event that tells that session `id` has closed.
pub fn close_event(kind: TransportKind, id: &str) -> (name: String)
    ensures
        name@ == close_event_name(kind, id@),
{
    proof {
        reveal_strlit("_close_");
    }
    let mut name = String::from_str(kind_str(kind));
    name.append("_close_");
    name.append(id);
    assert(name@ =~= close_event_name(kind, id@));
    name
}

/// How a remote session proves who the user is.
#[derive(Debug, PartialEq, Eq)]
pub enum AuthMethod {
    /// With the given password.
    Password(String),
    /// With a key that the user's agent holds.
    Agent,
}

/// An authentication method as plain values.
pub enum AuthMethodView {
    Password(Seq<char>),
    Agent,
}

impl View for AuthMethod {
    type V = AuthMethodView;

    open spec fn view(&self) -> AuthMethodView {
        match *self {
            AuthMethod::Password(password) => AuthMethodView::Password(password@),
            AuthMethod::Agent => AuthMethodView::Agent,
        }
    }
}

/// The method that the given credentials call for: the password where one
/// is given, else the agent where a key is named, else none.
pub open spec fn auth_choice(
    password: Option<Seq<char>>,
    private_key: Option<Seq<char>>,
) -> Option<AuthMethodView> {
    match password {
        Some(p) => Some(AuthMethodView::Password(p)),
        None => match private_key {
            Some(_) => Some(AuthMethodView::Agent),
            None => None,
        },
    }
}

/// The text of an optional text.
pub open spec fn opt_text(s: Option<String>) -> Option<Seq<char>> {
    match s {
        Some(t) => Some(t@),
        None => None,
    }
}

/// The view of an optional authentication method.
pub open spec fn opt_auth(m: Option<AuthMethod>) -> Option<AuthMethodView> {
    match m {
        Some(a) => Some(a@),
        None => None,
    }
}

/// Picks the authentication method for the given credentials.
pub fn select_auth(password: &Option<String>, private_key: &Option<String>) -> (method: Option<
    AuthMethod,
>)
    ensures
        opt_auth(method) == auth_choice(opt_text(*password), opt_text(*private_key)),
{
    match password {
        Some(p) => Some(AuthMethod::Password(p.clone())),
        None => match private_key {
            Some(_) => Some(AuthMethod::Agent),
            None => None,
        },
    }
}

/// A copy of an optional text.
pub fn clone_opt_text(s: &Option<String>) -> (copy: Option<String>)
    ensures
        opt_text(copy) == opt_text(*s),
{
    match s {
        Some(t) => Some(t.clone()),
        None => None,
    }
}

} // verus!
