//! The registry of local terminal sessions, the commands on it, and the
//! opening of a local session step by step.
//!
//! A registered session holds the queues of commands that wait for its
//! worker and the handle of its child process, which the registry keeps so
//! that a disconnect can end the process.

use vstd::prelude::*;
use vstd::utf8::encode_utf8;
use crate::registry::SessionTable;
use crate::session::ErrorKind;
use crate::session::SessionError;
use crate::session::SessionErrorView;
use crate::session::TerminalSize;
use crate::ssh::byte_seqs;

verus! {

/// A registered local session.
pub struct LocalSession<C> {
    write_queue: Vec<Vec<u8>>,
    resize_queue: Vec<TerminalSize>,
    child: Option<C>,
}

/// A registered local session as plain values. The queues hold the oldest
/// command first.
pub struct LocalSessionView<C> {
    pub writes: Seq<Seq<u8>>,
    pub resizes: Seq<TerminalSize>,
    pub child: Option<C>,
}

impl<C> LocalSessionView<C> {
    /// A session without pending commands.
    pub open spec fn fresh(child: Option<C>) -> LocalSessionView<C> {
        LocalSessionView { writes: Seq::empty(), resizes: Seq::empty(), child }
    }

    /// The session with one more write at the end of its queue.
    pub open spec fn push_write(self, bytes: Seq<u8>) -> LocalSessionView<C> {
        LocalSessionView { writes: self.writes.push(bytes), ..self }
    }

    /// The session without the oldest write.
    pub open spec fn pop_write(self) -> LocalSessionView<C> {
        LocalSessionView { writes: self.writes.drop_first(), ..self }
    }

    /// The session with one more resize at the end of its queue.
    pub open spec fn push_resize(self, size: TerminalSize) -> LocalSessionView<C> {
        LocalSessionView { resizes: self.resizes.push(size), ..self }
    }

    /// The session without the oldest resize.
    pub open spec fn pop_resize(self) -> LocalSessionView<C> {
        LocalSessionView { resizes: self.resizes.drop_first(), ..self }
    }
}

impl<C> View for LocalSession<C> {
    type V = LocalSessionView<C>;

    closed spec fn view(&self) -> LocalSessionView<C> {
        LocalSessionView {
            writes: byte_seqs(self.write_queue@),
            resizes: self.resize_queue@,
            child: self.child,
        }
    }
}

impl<C> LocalSession<C> {
    /// A session with the given child process and no pending commands.
    pub fn new(child: Option<C>) -> (session: LocalSession<C>)
        ensures
            session@ == LocalSessionView::fresh(child),
    {
        let session = LocalSession { write_queue: Vec::new(), resize_queue: Vec::new(), child };
        assert(byte_seqs(session.write_queue@) =~= Seq::<Seq<u8>>::empty());
        session
    }

    /// The handle of the child process.
    pub fn child(&self) -> (handle: Option<&C>)
        ensures
            match handle {
                Some(c) => self@.child == Some(*c),
                None => self@.child is None,
            },
    {
        self.child.as_ref()
    }

    /// Gives up the session for the handle of its child process.
    pub fn into_child(self) -> (handle: Option<C>)
        ensures
            handle == self@.child,
    {
        self.child
    }

    /// The number of writes that wait for the worker.
    pub fn pending_writes(&self) -> (n: usize)
        ensures
            n == self@.writes.len(),
    {
        self.write_queue.len()
    }

    /// The number of resizes that wait for the worker.
    pub fn pending_resizes(&self) -> (n: usize)
        ensures
            n == self@.resizes.len(),
    {
        self.resize_queue.len()
    }

    /// Puts a write at the end of the queue.
    pub fn push_write(&mut self, bytes: Vec<u8>)
        ensures
            final(self)@ == old(self)@.push_write(bytes@),
    {
        self.write_queue.push(bytes);
        assert(byte_seqs(self.write_queue@) =~= byte_seqs(old(self).write_queue@).push(bytes@));
    }

    /// Takes the oldest write off the queue.
    pub fn pop_write(&mut self) -> (bytes: Option<Vec<u8>>)
        ensures
            match bytes {
                Some(b) => old(self)@.writes.len() > 0 && b@ == old(self)@.writes[0] && final(self)@
                    == old(self)@.pop_write(),
                None => old(self)@.writes.len() == 0 && final(self)@ == old(self)@,
            },
    {
        if self.write_queue.len() > 0 {
            let bytes = self.write_queue.remove(0);
            assert(byte_seqs(self.write_queue@) =~= byte_seqs(old(self).write_queue@).drop_first());
            Some(bytes)
        } else {
            None
        }
    }

    /// Puts a resize at the end of the queue.
    pub fn push_resize(&mut self, size: TerminalSize)
        ensures
            final(self)@ == old(self)@.push_resize(size),
    {
        self.resize_queue.push(size);
    }

    /// Takes the oldest resize off the queue.
    pub fn pop_resize(&mut self) -> (size: Option<TerminalSize>)
        ensures
            match size {
                Some(s) => old(self)@.resizes.len() > 0 && s == old(self)@.resizes[0] && final(self)@
                    == old(self)@.pop_resize(),
                None => old(self)@.resizes.len() == 0 && final(self)@ == old(self)@,
            },
    {
        if self.resize_queue.len() > 0 {
            let size = self.resize_queue.remove(0);
            assert(self.resize_queue@ =~= old(self).resize_queue@.drop_first());
            Some(size)
        } else {
            None
        }
    }
}

/// The registry after a write for `id`: the bytes wait at the end of the
/// session's queue; nothing changes where no session has that identifier.
pub open spec fn local_after_write<C>(
    sessions: Map<Seq<char>, LocalSessionView<C>>,
    id: Seq<char>,
    bytes: Seq<u8>,
) -> Map<Seq<char>, LocalSessionView<C>> {
    if sessions.contains_key(id) {
        sessions.insert(id, sessions[id].push_write(bytes))
    } else {
        sessions
    }
}

/// The registry after a resize for `id`.
pub open spec fn local_after_resize<C>(
    sessions: Map<Seq<char>, LocalSessionView<C>>,
    id: Seq<char>,
    size: TerminalSize,
) -> Map<Seq<char>, LocalSessionView<C>> {
    if sessions.contains_key(id) {
        sessions.insert(id, sessions[id].push_resize(size))
    } else {
        sessions
    }
}

/// The write that the worker of `id` takes next, if one waits.
pub open spec fn local_next_write<C>(
    sessions: Map<Seq<char>, LocalSessionView<C>>,
    id: Seq<char>,
) -> Option<Seq<u8>> {
    if sessions.contains_key(id) && sessions[id].writes.len() > 0 {
        Some(sessions[id].writes[0])
    } else {
        None
    }
}

/// The registry after the worker of `id` took a write.
pub open spec fn local_after_take_write<C>(
    sessions: Map<Seq<char>, LocalSessionView<C>>,
    id: Seq<char>,
) -> Map<Seq<char>, LocalSessionView<C>> {
    if sessions.contains_key(id) && sessions[id].writes.len() > 0 {
        sessions.insert(id, sessions[id].pop_write())
    } else {
        sessions
    }
}

/// The resize that the worker of `id` takes next, if one waits.
pub open spec fn local_next_resize<C>(
    sessions: Map<Seq<char>, LocalSessionView<C>>,
    id: Seq<char>,
) -> Option<TerminalSize> {
    if sessions.contains_key(id) && sessions[id].resizes.len() > 0 {
        Some(sessions[id].resizes[0])
    } else {
        None
    }
}

/// The registry after the worker of `id` took a resize.
pub open spec fn local_after_take_resize<C>(
    sessions: Map<Seq<char>, LocalSessionView<C>>,
    id: Seq<char>,
) -> Map<Seq<char>, LocalSessionView<C>> {
    if sessions.contains_key(id) && sessions[id].resizes.len() > 0 {
        sessions.insert(id, sessions[id].pop_resize())
    } else {
        sessions
    }
}

/// The child process to end when session `id` is disconnected.
pub open spec fn child_of<C>(sessions: Map<Seq<char>, LocalSessionView<C>>, id: Seq<char>) -> Option<
    C,
> {
    if sessions.contains_key(id) {
        sessions[id].child
    } else {
        None
    }
}

/// The registry of local sessions.
pub struct LocalState<C> {
    sessions: SessionTable<LocalSession<C>>,
}

impl<C> View for LocalState<C> {
    type V = Map<Seq<char>, LocalSessionView<C>>;

    closed spec fn view(&self) -> Map<Seq<char>, LocalSessionView<C>> {
        Map::new(
            |k: Seq<char>| self.sessions@.contains_key(k),
            |k: Seq<char>| self.sessions@[k]@,
        )
    }
}

impl<C> LocalState<C> {
    /// A registry without sessions.
    pub fn new() -> (state: LocalState<C>)
        ensures
            state@ == Map::<Seq<char>, LocalSessionView<C>>::empty(),
    {
        let state = LocalState { sessions: SessionTable::new() };
        assert(state@ =~= Map::<Seq<char>, LocalSessionView<C>>::empty());
        state
    }

    /// Whether a session is registered under `id`.
    pub fn contains(&self, id: &str) -> (found: bool)
        ensures
            found == self@.contains_key(id@),
    {
        self.sessions.contains(id)
    }

    /// The number of registered sessions.
    pub fn len(&self) -> (n: usize)
        ensures
            n == self@.len(),
            self@.dom().finite(),
    {
        let n = self.sessions.len();
        assert(self@.dom() =~= self.sessions@.dom());
        n
    }

    /// The session registered under `id`.
    pub fn get(&self, id: &str) -> (found: Option<&LocalSession<C>>)
        ensures
            match found {
                Some(session) => self@.contains_key(id@) && self@[id@] == session@,
                None => !self@.contains_key(id@),
            },
    {
        self.sessions.get(id)
    }

    /// Registers `session` under `id`. A session that was registered under
    /// `id` before is replaced and handed back.
    pub fn register(&mut self, id: String, session: LocalSession<C>) -> (replaced: Option<
        LocalSession<C>,
    >)
        ensures
            final(self)@ == old(self)@.insert(id@, session@),
            match replaced {
                Some(previous) => old(self)@.contains_key(id@) && old(self)@[id@] == previous@,
                None => !old(self)@.contains_key(id@),
            },
    {
        let replaced = self.sessions.insert(id, session);
        assert(self@ =~= old(self)@.insert(id@, session@));
        replaced
    }

    /// Takes the session registered under `id` out of the registry.
    pub fn unregister(&mut self, id: &str) -> (removed: Option<LocalSession<C>>)
        ensures
            final(self)@ == old(self)@.remove(id@),
            match removed {
                Some(previous) => old(self)@.contains_key(id@) && old(self)@[id@] == previous@,
                None => !old(self)@.contains_key(id@),
            },
    {
        let removed = self.sessions.remove(id);
        assert(self@ =~= old(self)@.remove(id@));
        removed
    }
}

/// Queues `data` for the worker of session `id`, behind what is queued
/// already. Without such a session nothing happens. Never fails.
pub fn write_local<C>(state: &mut LocalState<C>, id: String, data: String) -> (done: Result<
    (),
    String,
>)
    ensures
        done is Ok,
        final(state)@ == local_after_write(old(state)@, id@, encode_utf8(data@)),
{
    let bytes = data.as_str().as_bytes_vec();
    match state.unregister(id.as_str()) {
        Some(mut session) => {
            session.push_write(bytes);
            state.register(id, session);
            assert(final(state)@ =~= local_after_write(old(state)@, id@, encode_utf8(data@)));
        },
        None => {
            assert(state@ =~= old(state)@);
        },
    }
    Ok(())
}

/// Queues a new terminal size for the worker of session `id`. Without such
/// a session nothing happens. Never fails.
pub fn resize_local<C>(state: &mut LocalState<C>, id: String, cols: u16, rows: u16) -> (done:
    Result<(), String>)
    ensures
        done is Ok,
        final(state)@ == local_after_resize(
            old(state)@,
            id@,
            TerminalSize { cols: cols as u32, rows: rows as u32 },
        ),
{
    let size = TerminalSize { cols: cols as u32, rows: rows as u32 };
    match state.unregister(id.as_str()) {
        Some(mut session) => {
            session.push_resize(size);
            state.register(id, session);
            assert(final(state)@ =~= local_after_resize(old(state)@, id@, size));
        },
        None => {
            assert(state@ =~= old(state)@);
        },
    }
    Ok(())
}

/// Removes session `id` from the registry and hands back the child process
/// that the caller has to end. Without such a session nothing happens.
/// Never fails.
pub fn disconnect_local<C>(state: &mut LocalState<C>, id: String) -> (done: Result<
    Option<C>,
    String,
>)
    ensures
        done == Ok::<Option<C>, String>(child_of(old(state)@, id@)),
        final(state)@ == old(state)@.remove(id@),
{
    match state.unregister(id.as_str()) {
        Some(session) => Ok(session.into_child()),
        None => Ok(None),
    }
}

/// Takes the oldest queued write of session `id` for its worker.
pub fn take_local_write<C>(state: &mut LocalState<C>, id: &str) -> (bytes: Option<Vec<u8>>)
    ensures
        match bytes {
            Some(b) => Some(b@) == local_next_write(old(state)@, id@),
            None => local_next_write(old(state)@, id@) is None,
        },
        final(state)@ == local_after_take_write(old(state)@, id@),
{
    match state.unregister(id) {
        Some(mut session) => {
            let bytes = session.pop_write();
            state.register(String::from_str(id), session);
            assert(final(state)@ =~= local_after_take_write(old(state)@, id@));
            bytes
        },
        None => {
            assert(state@ =~= old(state)@);
            None
        },
    }
}

/// Takes the oldest queued resize of session `id` for its worker.
pub fn take_local_resize<C>(state: &mut LocalState<C>, id: &str) -> (size: Option<TerminalSize>)
    ensures
        size == local_next_resize(old(state)@, id@),
        final(state)@ == local_after_take_resize(old(state)@, id@),
{
    match state.unregister(id) {
        Some(mut session) => {
            let size = session.pop_resize();
            state.register(String::from_str(id), session);
            assert(final(state)@ =~= local_after_take_resize(old(state)@, id@));
            size
        },
        None => {
            assert(state@ =~= old(state)@);
            None
        },
    }
}

/// What the opening of a local session has asked for last.
#[derive(Debug, Clone, Copy, PartialEq, Eq, Structural)]
pub enum LocalConnectPhase {
    /// The pseudo-terminal.
    Opening,
    /// The shell in it.
    Starting,
    /// The reading and the writing end of the terminal.
    Attaching,
    /// The worker.
    Spawning,
    /// The handle of the child process for the registry.
    Registering,
    /// Nothing more.
    Done,
}

/// How far a phase is along the order of the opening.
pub open spec fn local_phase_rank(phase: LocalConnectPhase) -> nat {
    match phase {
        LocalConnectPhase::Opening => 0,
        LocalConnectPhase::Starting => 1,
        LocalConnectPhase::Attaching => 2,
        LocalConnectPhase::Spawning => 3,
        LocalConnectPhase::Registering => 4,
        LocalConnectPhase::Done => 5,
    }
}

/// What the last action of the opening brought.
pub enum LocalConnectEvent<C> {
    /// The action succeeded.
    Tick,
    /// The action failed, with the reason.
    Failed(String),
    /// The handle of the child process, to be kept in the registry.
    Child(C),
}

/// An event of the opening as plain values.
pub enum LocalConnectEventView<C> {
    Tick,
    Failed(Seq<char>),
    Child(C),
}

impl<C> View for LocalConnectEvent<C> {
    type V = LocalConnectEventView<C>;

    open spec fn view(&self) -> LocalConnectEventView<C> {
        match *self {
            LocalConnectEvent::Tick => LocalConnectEventView::Tick,
            LocalConnectEvent::Failed(reason) => LocalConnectEventView::Failed(reason@),
            LocalConnectEvent::Child(child) => LocalConnectEventView::Child(child),
        }
    }
}

impl<C> LocalConnectEventView<C> {
    /// The child process that the event carries.
    pub open spec fn child(self) -> Option<C> {
        match self {
            LocalConnectEventView::Child(child) => Some(child),
            _ => None,
        }
    }
}

/// What the caller of the opening has to do next.
#[derive(Debug, PartialEq, Eq)]
pub enum LocalConnectAction {
    /// Open a pseudo-terminal of the given size.
    OpenPty { size: TerminalSize },
    /// Start the user's shell in the terminal, with the given terminal type
    /// in its environment.
    SpawnShell { term: String },
    /// Take the reading and the writing end of the terminal.
    AttachStreams,
    /// Start the worker of the session.
    SpawnWorker,
    /// Hand over the child process for the registry.
    Register,
    /// The opening has ended with this result.
    Finish(Result<(), SessionError>),
    /// Nothing is left to do.
    Stop,
}

/// An action of the opening as plain values.
pub enum LocalConnectActionView {
    OpenPty { size: TerminalSize },
    SpawnShell { term: Seq<char> },
    AttachStreams,
    SpawnWorker,
    Register,
    Finish(Result<(), SessionErrorView>),
    Stop,
}

impl View for LocalConnectAction {
    type V = LocalConnectActionView;

    open spec fn view(&self) -> LocalConnectActionView {
        match *self {
            LocalConnectAction::OpenPty { size } => LocalConnectActionView::OpenPty { size },
            LocalConnectAction::SpawnShell { term } => LocalConnectActionView::SpawnShell {
                term: term@,
            },
            LocalConnectAction::AttachStreams => LocalConnectActionView::AttachStreams,
            LocalConnectAction::SpawnWorker => LocalConnectActionView::SpawnWorker,
            LocalConnectAction::Register => LocalConnectActionView::Register,
            LocalConnectAction::Finish(result) => LocalConnectActionView::Finish(
                match result {
                    Ok(_) => Ok(()),
                    Err(e) => Err(e@),
                },
            ),
            LocalConnectAction::Stop => LocalConnectActionView::Stop,
        }
    }
}

impl LocalConnectActionView {
    /// The action that ends the opening with a failure.
    pub open spec fn is_failure(self) -> bool {
        self matches LocalConnectActionView::Finish(Err(_))
    }

    /// The action makes the session live: its worker or its entry.
    pub open spec fn creates(self) -> bool {
        self is SpawnWorker || self is Register
    }
}

/// The opening of a local session as plain values.
pub struct LocalConnectView {
    pub id: Seq<char>,
    pub size: TerminalSize,
    pub phase: LocalConnectPhase,
}

impl LocalConnectView {
    /// The opening in another phase.
    pub open spec fn at(self, phase: LocalConnectPhase) -> LocalConnectView {
        LocalConnectView { phase, ..self }
    }

    /// The end of the opening with a failure of the transport.
    pub open spec fn fail(self, reason: Seq<char>) -> (LocalConnectView, LocalConnectActionView) {
        (
            self.at(LocalConnectPhase::Done),
            LocalConnectActionView::Finish(
                Err(SessionErrorView { kind: ErrorKind::Transport, message: reason }),
            ),
        )
    }

    /// The start of the opening of session `id`: nothing to do where the
    /// session is registered already; else the terminal.
    pub open spec fn start(registered: bool, id: Seq<char>, cols: u16, rows: u16) -> (
        LocalConnectView,
        LocalConnectActionView,
    ) {
        let size = TerminalSize { cols: cols as u32, rows: rows as u32 };
        if registered {
            (
                LocalConnectView { id, size, phase: LocalConnectPhase::Done },
                LocalConnectActionView::Finish(Ok(())),
            )
        } else {
            (
                LocalConnectView { id, size, phase: LocalConnectPhase::Opening },
                LocalConnectActionView::OpenPty { size },
            )
        }
    }

    /// The opening after `event`, and the action it asks for.
    pub open spec fn step<C>(self, event: LocalConnectEventView<C>) -> (
        LocalConnectView,
        LocalConnectActionView,
    ) {
        match self.phase {
            LocalConnectPhase::Opening => match event {
                LocalConnectEventView::Failed(reason) => self.fail(reason),
                _ => (
                    self.at(LocalConnectPhase::Starting),
                    LocalConnectActionView::SpawnShell { term: "xterm-256color"@ },
                ),
            },
            LocalConnectPhase::Starting => match event {
                LocalConnectEventView::Failed(reason) => self.fail(reason),
                _ => (self.at(LocalConnectPhase::Attaching), LocalConnectActionView::AttachStreams),
            },
            LocalConnectPhase::Attaching => match event {
                LocalConnectEventView::Failed(reason) => self.fail(reason),
                _ => (self.at(LocalConnectPhase::Spawning), LocalConnectActionView::SpawnWorker),
            },
            LocalConnectPhase::Spawning => (
                self.at(LocalConnectPhase::Registering),
                LocalConnectActionView::Register,
            ),
            LocalConnectPhase::Registering => (
                self.at(LocalConnectPhase::Done),
                LocalConnectActionView::Finish(Ok(())),
            ),
            LocalConnectPhase::Done => (self, LocalConnectActionView::Stop),
        }
    }

    /// The session that the step on `event` puts into the registry: none but
    /// in answer to the action to register.
    pub open spec fn registers<C>(self, event: LocalConnectEventView<C>) -> Option<
        LocalSessionView<C>,
    > {
        if self.phase is Registering {
            Some(LocalSessionView::fresh(event.child()))
        } else {
            None
        }
    }

    /// The registry after the step on `event`.
    pub open spec fn sessions_after<C>(
        self,
        sessions: Map<Seq<char>, LocalSessionView<C>>,
        event: LocalConnectEventView<C>,
    ) -> Map<Seq<char>, LocalSessionView<C>> {
        match self.registers(event) {
            Some(session) => sessions.insert(self.id, session),
            None => sessions,
        }
    }

    /// The opening after the given events, one after the other.
    pub open spec fn after<C>(self, events: Seq<LocalConnectEventView<C>>) -> LocalConnectView
        decreases events.len(),
    {
        if events.len() == 0 {
            self
        } else {
            self.after(events.drop_last()).step(events.last()).0
        }
    }

    /// The actions that the opening asks for in answer to the given events.
    pub open spec fn actions<C>(self, events: Seq<LocalConnectEventView<C>>) -> Seq<
        LocalConnectActionView,
    >
        decreases events.len(),
    {
        if events.len() == 0 {
            Seq::empty()
        } else {
            self.actions(events.drop_last()).push(
                self.after(events.drop_last()).step(events.last()).1,
            )
        }
    }

    /// The registry after the given events, one after the other.
    pub open spec fn sessions_after_all<C>(
        self,
        sessions: Map<Seq<char>, LocalSessionView<C>>,
        events: Seq<LocalConnectEventView<C>>,
    ) -> Map<Seq<char>, LocalSessionView<C>>
        decreases events.len(),
    {
        if events.len() == 0 {
            sessions
        } else {
            self.after(events.drop_last()).sessions_after(
                self.sessions_after_all(sessions, events.drop_last()),
                events.last(),
            )
        }
    }
}

/// The decisions of the opening of one local session.
pub struct LocalConnect {
    id: String,
    size: TerminalSize,
    phase: LocalConnectPhase,
}

impl View for LocalConnect {
    type V = LocalConnectView;

    closed spec fn view(&self) -> LocalConnectView {
        LocalConnectView { id: self.id@, size: self.size, phase: self.phase }
    }
}

impl LocalConnect {
    /// The identifier of the session.
    pub fn id(&self) -> (id: &String)
        ensures
            id@ == self@.id,
    {
        &self.id
    }

    /// What the opening has asked for last.
    pub fn phase(&self) -> (phase: LocalConnectPhase)
        ensures
            phase == self@.phase,
    {
        self.phase
    }

    /// Whether the opening has ended.
    pub fn is_done(&self) -> (done: bool)
        ensures
            done == (self@.phase is Done),
    {
        match self.phase {
            LocalConnectPhase::Done => true,
            _ => false,
        }
    }

    fn fail(&mut self, reason: String) -> (action: LocalConnectAction)
        ensures
            (final(self)@, action@) == old(self)@.fail(reason@),
    {
        self.phase = LocalConnectPhase::Done;
        LocalConnectAction::Finish(Err(SessionError { kind: ErrorKind::Transport, message: reason }))
    }

    /// Takes what the last action brought and names the next action.
    ///
    /// The registry changes in one step only: the one that answers the
    /// action to register puts the session under its identifier. An event
    /// that reports no failure counts as success.
    pub fn step<C>(&mut self, state: &mut LocalState<C>, event: LocalConnectEvent<C>) -> (action:
        LocalConnectAction)
        ensures
            (final(self)@, action@) == old(self)@.step(event@),
            final(state)@ == old(self)@.sessions_after(old(state)@, event@),
    {
        match self.phase {
            LocalConnectPhase::Opening => match event {
                LocalConnectEvent::Failed(reason) => self.fail(reason),
                _ => {
                    self.phase = LocalConnectPhase::Starting;
                    LocalConnectAction::SpawnShell { term: String::from_str("xterm-256color") }
                },
            },
            LocalConnectPhase::Starting => match event {
                LocalConnectEvent::Failed(reason) => self.fail(reason),
                _ => {
                    self.phase = LocalConnectPhase::Attaching;
                    LocalConnectAction::AttachStreams
                },
            },
            LocalConnectPhase::Attaching => match event {
                LocalConnectEvent::Failed(reason) => self.fail(reason),
                _ => {
                    self.phase = LocalConnectPhase::Spawning;
                    LocalConnectAction::SpawnWorker
                },
            },
            LocalConnectPhase::Spawning => {
                self.phase = LocalConnectPhase::Registering;
                LocalConnectAction::Register
            },
            LocalConnectPhase::Registering => {
                let session = match event {
                    LocalConnectEvent::Child(child) => LocalSession::new(Some(child)),
                    _ => LocalSession::new(None),
                };
                state.register(self.id.clone(), session);
                self.phase = LocalConnectPhase::Done;
                LocalConnectAction::Finish(Ok(()))
            },
            LocalConnectPhase::Done => LocalConnectAction::Stop,
        }
    }
}

/// Begins the opening of local session `id` with a terminal of the given
/// size. Where the session is registered already, the opening ends at once
/// with success.
pub fn connect_local<C>(state: &LocalState<C>, id: String, cols: u16, rows: u16) -> (r: (
    LocalConnect,
    LocalConnectAction,
))
    ensures
        (r.0@, r.1@) == LocalConnectView::start(state@.contains_key(id@), id@, cols, rows),
{
    let size = TerminalSize { cols: cols as u32, rows: rows as u32 };
    if state.contains(id.as_str()) {
        (
            LocalConnect { id, size, phase: LocalConnectPhase::Done },
            LocalConnectAction::Finish(Ok(())),
        )
    } else {
        (
            LocalConnect { id, size, phase: LocalConnectPhase::Opening },
            LocalConnectAction::OpenPty { size },
        )
    }
}

/// What one step of the opening can do: it never goes back in its order; it
/// fails only before the worker is asked for, and is done then; the registry
/// changes only in answer to the action to register; an opening that is
/// done stays as it is and asks for nothing.
pub proof fn lemma_local_connect_step_order<C>(c: LocalConnectView, event: LocalConnectEventView<C>)
    ensures
        local_phase_rank(c.step(event).0.phase) >= local_phase_rank(c.phase),
        c.step(event).1.is_failure() ==> local_phase_rank(c.phase) <= 2 && c.step(event).0.phase
            is Done,
        c.step(event).1.creates() ==> 3 <= local_phase_rank(c.step(event).0.phase) <= 4,
        c.registers(event) is Some ==> c.phase is Registering,
        c.phase is Done ==> c.step(event) == (c, LocalConnectActionView::Stop),
        c.phase is Done ==> c.registers(event) is None,
{
}

/// An opening for an identifier that is registered already does nothing:
/// it ends at once with success, asks for nothing after that and leaves the
/// registry as it is.
pub proof fn lemma_local_connect_is_idempotent<C>(
    sessions: Map<Seq<char>, LocalSessionView<C>>,
    id: Seq<char>,
    cols: u16,
    rows: u16,
    event: LocalConnectEventView<C>,
)
    requires
        sessions.contains_key(id),
    ensures
        ({
            let (opening, first) = LocalConnectView::start(sessions.contains_key(id), id, cols, rows);
            &&& first == LocalConnectActionView::Finish(Ok(()))
            &&& opening.step(event) == (opening, LocalConnectActionView::Stop)
            &&& opening.sessions_after(sessions, event) == sessions
        }),
{
}

/// For an identifier that no local session is registered under, a write, a
/// resize and a disconnect leave the registry as it is, and no child
/// process is to be ended.
pub proof fn lemma_unknown_local_session_commands_do_nothing<C>(
    sessions: Map<Seq<char>, LocalSessionView<C>>,
    id: Seq<char>,
    bytes: Seq<u8>,
    size: TerminalSize,
)
    requires
        !sessions.contains_key(id),
    ensures
        local_after_write(sessions, id, bytes) == sessions,
        local_after_resize(sessions, id, size) == sessions,
        sessions.remove(id) == sessions,
        child_of(sessions, id) is None,
        local_next_write(sessions, id) is None,
        local_next_resize(sessions, id) is None,
{
    assert(sessions.remove(id) =~= sessions);
}

/// Writes to a local session reach the worker in the order in which they
/// were made.
pub proof fn lemma_local_writes_keep_their_order<C>(
    sessions: Map<Seq<char>, LocalSessionView<C>>,
    id: Seq<char>,
    first: Seq<u8>,
    second: Seq<u8>,
)
    requires
        sessions.contains_key(id),
    ensures
        ({
            let written = local_after_write(local_after_write(sessions, id, first), id, second);
            let taken_once = local_after_take_write(written, id);
            let taken_twice = local_after_take_write(taken_once, id);
            &&& written.contains_key(id)
            &&& written[id].writes == sessions[id].writes.push(first).push(second)
            &&& sessions[id].writes.len() == 0 ==> {
                &&& local_next_write(written, id) == Some(first)
                &&& local_next_write(taken_once, id) == Some(second)
                &&& local_next_write(taken_twice, id) is None
            }
        }),
{
    let written = local_after_write(local_after_write(sessions, id, first), id, second);
    let taken_once = local_after_take_write(written, id);
    if sessions[id].writes.len() == 0 {
        assert(written[id].writes.drop_first() =~= seq![second]);
        assert(taken_once[id].writes.drop_first() =~= Seq::<Seq<u8>>::empty());
    }
}

proof fn lemma_local_action_at<C>(
    c: LocalConnectView,
    events: Seq<LocalConnectEventView<C>>,
    j: int,
)
    requires
        0 <= j < events.len(),
    ensures
        c.actions(events).len() == events.len(),
        c.actions(events)[j] == c.after(events.subrange(0, j)).step(events[j]).1,
    decreases events.len(),
{
    lemma_local_length(c, events);
    if j == events.len() - 1 {
        assert(events.drop_last() =~= events.subrange(0, j));
    } else {
        lemma_local_action_at(c, events.drop_last(), j);
        assert(events.drop_last().subrange(0, j) =~= events.subrange(0, j));
    }
}

/// The opening answers every event with exactly one action.
pub proof fn lemma_local_length<C>(c: LocalConnectView, events: Seq<LocalConnectEventView<C>>)
    ensures
        c.actions(events).len() == events.len(),
    decreases events.len(),
{
    if events.len() > 0 {
        lemma_local_length(c, events.drop_last());
    }
}

proof fn lemma_local_rank<C>(
    c: LocalConnectView,
    events: Seq<LocalConnectEventView<C>>,
    a: int,
    b: int,
)
    requires
        0 <= a <= b <= events.len(),
    ensures
        local_phase_rank(c.after(events.subrange(0, a)).phase) <= local_phase_rank(
            c.after(events.subrange(0, b)).phase,
        ),
    decreases b - a,
{
    if a < b {
        lemma_local_rank(c, events, a, b - 1);
        let longer = events.subrange(0, b);
        assert(longer.drop_last() =~= events.subrange(0, b - 1));
        lemma_local_connect_step_order(c.after(events.subrange(0, b - 1)), longer.last());
    }
}

proof fn lemma_local_untouched<C>(
    c: LocalConnectView,
    sessions: Map<Seq<char>, LocalSessionView<C>>,
    events: Seq<LocalConnectEventView<C>>,
)
    requires
        forall|j: int|
            0 <= j < events.len() ==> !(#[trigger] c.after(events.subrange(0, j)).phase
                is Registering),
    ensures
        c.sessions_after_all(sessions, events) == sessions,
    decreases events.len(),
{
    if events.len() > 0 {
        let front = events.drop_last();
        assert forall|j: int| 0 <= j < front.len() implies !(#[trigger] c.after(
            front.subrange(0, j),
        ).phase is Registering) by {
            assert(front.subrange(0, j) =~= events.subrange(0, j));
        }
        lemma_local_untouched(c, sessions, front);
        assert(front =~= events.subrange(0, events.len() - 1));
        assert(!(c.after(events.subrange(0, events.len() - 1)).phase is Registering));
    }
}

proof fn lemma_local_failed_at<C>(
    c: LocalConnectView,
    events: Seq<LocalConnectEventView<C>>,
    i: int,
    j: int,
)
    requires
        0 <= i < events.len(),
        0 <= j < events.len(),
        c.actions(events).len() == events.len(),
        c.actions(events)[i].is_failure(),
    ensures
        !c.actions(events)[j].creates(),
        !(c.after(events.subrange(0, j)).phase is Registering),
{
    lemma_local_action_at(c, events, i);
    lemma_local_connect_step_order(c.after(events.subrange(0, i)), events[i]);
    assert(events.subrange(0, i + 1).drop_last() =~= events.subrange(0, i));
    assert(events.subrange(0, i + 1).last() == events[i]);
    lemma_local_action_at(c, events, j);
    lemma_local_connect_step_order(c.after(events.subrange(0, j)), events[j]);
    if j < i {
        assert(events.subrange(0, j + 1).drop_last() =~= events.subrange(0, j));
        assert(events.subrange(0, j + 1).last() == events[j]);
        lemma_local_rank(c, events, j + 1, i);
        lemma_local_rank(c, events, j, i);
    } else if j > i {
        lemma_local_rank(c, events, i + 1, j);
    }
}

/// An opening that fails has made nothing: whatever events the run holds,
/// no action of the run asks for the worker or for the registration, and
/// the registry is after the run what it was before.
pub proof fn lemma_failed_local_opening_creates_nothing<C>(
    c: LocalConnectView,
    sessions: Map<Seq<char>, LocalSessionView<C>>,
    events: Seq<LocalConnectEventView<C>>,
    i: int,
)
    requires
        0 <= i < events.len(),
        c.actions(events)[i].is_failure(),
    ensures
        c.actions(events).len() == events.len(),
        forall|j: int| 0 <= j < events.len() ==> !(#[trigger] c.actions(events)[j]).creates(),
        c.sessions_after_all(sessions, events) == sessions,
{
    lemma_local_length(c, events);
    assert forall|j: int| 0 <= j < events.len() implies !(#[trigger] c.actions(events)[j]).creates(
    ) by {
        lemma_local_failed_at(c, events, i, j);
    }
    assert forall|j: int| 0 <= j < events.len() implies !(#[trigger] c.after(
        events.subrange(0, j),
    ).phase is Registering) by {
        lemma_local_failed_at(c, events, i, j);
    }
    lemma_local_untouched(c, sessions, events);
}

proof fn lemma_local_run_keeps_entry<C>(
    c: LocalConnectView,
    sessions: Map<Seq<char>, LocalSessionView<C>>,
    events: Seq<LocalConnectEventView<C>>,
    k: int,
)
    requires
        0 <= k <= events.len(),
    ensures
        c.after(events.subrange(0, k)).id == c.id,
        sessions.contains_key(c.id) ==> c.sessions_after_all(
            sessions,
            events.subrange(0, k),
        ).contains_key(c.id),
        forall|i: int|
            0 <= i < k && #[trigger] c.actions(events)[i] == LocalConnectActionView::Finish(Ok(()))
                ==> c.sessions_after_all(sessions, events.subrange(0, k)).contains_key(c.id),
    decreases k,
{
    if k == 0 {
        assert(events.subrange(0, 0) =~= Seq::<LocalConnectEventView<C>>::empty());
    } else {
        lemma_local_run_keeps_entry(c, sessions, events, k - 1);
        let prefix = events.subrange(0, k);
        assert(prefix.drop_last() =~= events.subrange(0, k - 1));
        assert(prefix.last() == events[k - 1]);
        lemma_local_action_at(c, events, k - 1);
    }
}

/// An opening that ends with success has registered its session: after a
/// run in which the opening ended with success, the identifier of the
/// opening is in the registry.
pub proof fn lemma_successful_local_opening_has_registered<C>(
    c: LocalConnectView,
    sessions: Map<Seq<char>, LocalSessionView<C>>,
    events: Seq<LocalConnectEventView<C>>,
    i: int,
)
    requires
        0 <= i < events.len(),
        c.actions(events)[i] == LocalConnectActionView::Finish(Ok(())),
    ensures
        c.sessions_after_all(sessions, events).contains_key(c.id),
{
    lemma_local_run_keeps_entry(c, sessions, events, events.len() as int);
    assert(events.subrange(0, events.len() as int) =~= events);
}

} // verus!
