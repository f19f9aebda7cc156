//! Opening a remote session, step by step.
//!
//! A connect request runs through a fixed order of actions: an optional
//! detour over a jump host, the connection itself, the handshake, the
//! authentication, the shell, the side channel for file transfer with an
//! authentication of its own, the entry in the registry, the tunnels of the
//! forwarding rules and at last the worker. The machine here decides which
//! action comes next and what a failure means; its caller performs the
//! actions. The first failure ends the request, and a request that has
//! failed has registered nothing.

use vstd::prelude::*;
use crate::models::Server;
use crate::relay::RelayTarget;
use crate::relay::RelayTargetView;
use crate::relay::target_views;
use crate::session::auth_choice;
use crate::session::clone_opt_text;
use crate::session::opt_text;
use crate::session::select_auth;
use crate::session::AuthMethod;
use crate::session::AuthMethodView;
use crate::session::ErrorKind;
use crate::session::SessionError;
use crate::session::SessionErrorView;
use crate::session::TerminalSize;
use crate::ssh::Endpoint;
use crate::ssh::EndpointView;
use crate::ssh::SshConnection;
use crate::ssh::SshConnectionView;
use crate::ssh::SshState;
use crate::text::address_text;
use crate::text::socket_address;

verus! {

/// Seconds between two keep-alive messages of an interactive session.
pub const KEEPALIVE_SECS: u32 = 30;

/// The width of a new remote terminal.
pub const DEFAULT_COLS: u32 = 80;

/// The height of a new remote terminal.
pub const DEFAULT_ROWS: u32 = 24;

/// The terminal type that a new shell is told.
pub open spec fn terminal_type() -> Seq<char> {
    "xterm-256color"@
}

/// The address of this machine for connections to a local relay.
pub open spec fn loopback_host() -> Seq<char> {
    "127.0.0.1"@
}

/// The three connections that a connect request may open.
#[derive(Debug, Clone, Copy, PartialEq, Eq, Structural)]
pub enum Link {
    /// To the jump host.
    Jump,
    /// To the target, for the interactive session.
    Main,
    /// To the target again, for file transfer.
    Side,
}

/// What the connect request has asked for last.
#[derive(Debug, Clone, Copy, PartialEq, Eq, Structural)]
pub enum ConnectPhase {
    /// The saved record of the jump host.
    JumpLookup,
    /// The connection to the jump host.
    JumpDial,
    /// The handshake with the jump host.
    JumpHandshake,
    /// The authentication against the jump host.
    JumpAuth,
    /// The relay through the jump host.
    JumpBind,
    /// The connection to the target.
    Dial,
    /// The handshake with the target.
    Handshake,
    /// The authentication against the target.
    Auth,
    /// The shell.
    Shell,
    /// The connection of the side channel.
    SideDial,
    /// The handshake of the side channel.
    SideHandshake,
    /// The authentication of the side channel.
    SideAuth,
    /// The session handles for the registry.
    Registering,
    /// A tunnel.
    Tunnels,
    /// The worker.
    Spawning,
    /// Nothing more: the request has ended.
    Done,
}

/// How far a phase is along the order of a connect request.
pub open spec fn phase_rank(phase: ConnectPhase) -> nat {
    match phase {
        ConnectPhase::JumpLookup => 0,
        ConnectPhase::JumpDial => 1,
        ConnectPhase::JumpHandshake => 2,
        ConnectPhase::JumpAuth => 3,
        ConnectPhase::JumpBind => 4,
        ConnectPhase::Dial => 5,
        ConnectPhase::Handshake => 6,
        ConnectPhase::Auth => 7,
        ConnectPhase::Shell => 8,
        ConnectPhase::SideDial => 9,
        ConnectPhase::SideHandshake => 10,
        ConnectPhase::SideAuth => 11,
        ConnectPhase::Registering => 12,
        ConnectPhase::Tunnels => 13,
        ConnectPhase::Spawning => 14,
        ConnectPhase::Done => 15,
    }
}

/// What a connect request needs to know of its jump host.
#[derive(Debug, PartialEq, Eq)]
pub struct JumpHost {
    pub host: String,
    pub port: i32,
    pub username: String,
    pub password: Option<String>,
    pub private_key_path: Option<String>,
}

/// A jump host as plain values.
pub struct JumpHostView {
    pub host: Seq<char>,
    pub port: i32,
    pub username: Seq<char>,
    pub password: Option<Seq<char>>,
    pub private_key_path: Option<Seq<char>>,
}

impl View for JumpHost {
    type V = JumpHostView;

    open spec fn view(&self) -> JumpHostView {
        JumpHostView {
            host: self.host@,
            port: self.port,
            username: self.username@,
            password: opt_text(self.password),
            private_key_path: opt_text(self.private_key_path),
        }
    }
}

/// What a connect request reads of a saved server that serves as jump host.
pub open spec fn jump_host_of(server: Server) -> JumpHostView {
    JumpHostView {
        host: server.host@,
        port: server.port,
        username: server.username@,
        password: opt_text(server.password),
        private_key_path: opt_text(server.private_key_path),
    }
}

impl JumpHost {
    /// The jump host that a saved server describes.
    pub fn from_server(server: &Server) -> (jump: JumpHost)
        ensures
            jump@ == jump_host_of(*server),
    {
        JumpHost {
            host: server.host.clone(),
            port: server.port,
            username: server.username.clone(),
            password: clone_opt_text(&server.password),
            private_key_path: clone_opt_text(&server.private_key_path),
        }
    }
}

/// What the last action of a connect request brought.
pub enum ConnectEvent<H> {
    /// The action succeeded.
    Tick,
    /// The action failed, with the reason.
    Failed(String),
    /// What the store holds under the identifier of the jump host.
    JumpHost(Option<Server>),
    /// The relay through the jump host listens on this port.
    Bound(u16),
    /// The handles of the interactive session and of the side channel, to
    /// be kept in the registry.
    Sessions { session: Option<H>, sftp_session: Option<H> },
}

/// A connect event as plain values.
pub enum ConnectEventView<H> {
    Tick,
    Failed(Seq<char>),
    JumpHost(Option<JumpHostView>),
    Bound(u16),
    Sessions { session: Option<H>, sftp_session: Option<H> },
}

impl<H> View for ConnectEvent<H> {
    type V = ConnectEventView<H>;

    open spec fn view(&self) -> ConnectEventView<H> {
        match *self {
            ConnectEvent::Tick => ConnectEventView::Tick,
            ConnectEvent::Failed(reason) => ConnectEventView::Failed(reason@),
            ConnectEvent::JumpHost(found) => ConnectEventView::JumpHost(
                match found {
                    Some(server) => Some(jump_host_of(server)),
                    None => None,
                },
            ),
            ConnectEvent::Bound(port) => ConnectEventView::Bound(port),
            ConnectEvent::Sessions { session, sftp_session } => ConnectEventView::Sessions {
                session,
                sftp_session,
            },
        }
    }
}

impl<H> ConnectEventView<H> {
    /// The reason of a failure; empty for any other event.
    pub open spec fn reason(self) -> Seq<char> {
        match self {
            ConnectEventView::Failed(reason) => reason,
            _ => Seq::empty(),
        }
    }

    /// The handle of the interactive session that the event carries.
    pub open spec fn session(self) -> Option<H> {
        match self {
            ConnectEventView::Sessions { session, sftp_session } => session,
            _ => None,
        }
    }

    /// The handle of the side channel that the event carries.
    pub open spec fn sftp_session(self) -> Option<H> {
        match self {
            ConnectEventView::Sessions { session, sftp_session } => sftp_session,
            _ => None,
        }
    }
}

/// What the caller of a connect request has to do next.
#[derive(Debug, PartialEq, Eq)]
pub enum ConnectAction {
    /// Fetch the saved server with this identifier.
    LookupJumpHost { id: i64 },
    /// Open a connection to the address.
    Dial { link: Link, address: String },
    /// Run the handshake on the connection.
    Handshake { link: Link },
    /// Authenticate as the user with the method.
    Authenticate { link: Link, username: String, method: AuthMethod },
    /// Start a tunnel through the jump host to the target and tell its port.
    BindRelay { target: RelayTarget },
    /// Switch on keep-alive, open a channel, ask for a terminal of the given
    /// type and size and start the shell.
    OpenShell { keepalive_secs: u32, term: String, size: TerminalSize },
    /// Hand over the session handles for the registry.
    Register,
    /// Start a tunnel for a forwarding rule.
    StartTunnel { target: RelayTarget },
    /// Start the worker of the session.
    SpawnWorker,
    /// The request has ended with this result.
    Finish(Result<(), SessionError>),
    /// Nothing is left to do.
    Stop,
}

/// A connect action as plain values.
pub enum ConnectActionView {
    LookupJumpHost { id: i64 },
    Dial { link: Link, address: Seq<char> },
    Handshake { link: Link },
    Authenticate { link: Link, username: Seq<char>, method: AuthMethodView },
    BindRelay { target: RelayTargetView },
    OpenShell { keepalive_secs: u32, term: Seq<char>, size: TerminalSize },
    Register,
    StartTunnel { target: RelayTargetView },
    SpawnWorker,
    Finish(Result<(), SessionErrorView>),
    Stop,
}

impl View for ConnectAction {
    type V = ConnectActionView;

    open spec fn view(&self) -> ConnectActionView {
        match *self {
            ConnectAction::LookupJumpHost { id } => ConnectActionView::LookupJumpHost { id },
            ConnectAction::Dial { link, address } => ConnectActionView::Dial {
                link,
                address: address@,
            },
            ConnectAction::Handshake { link } => ConnectActionView::Handshake { link },
            ConnectAction::Authenticate { link, username, method } => {
                ConnectActionView::Authenticate { link, username: username@, method: method@ }
            },
            ConnectAction::BindRelay { target } => ConnectActionView::BindRelay { target: target@ },
            ConnectAction::OpenShell { keepalive_secs, term, size } => {
                ConnectActionView::OpenShell { keepalive_secs, term: term@, size }
            },
            ConnectAction::Register => ConnectActionView::Register,
            ConnectAction::StartTunnel { target } => ConnectActionView::StartTunnel {
                target: target@,
            },
            ConnectAction::SpawnWorker => ConnectActionView::SpawnWorker,
            ConnectAction::Finish(result) => ConnectActionView::Finish(
                match result {
                    Ok(_) => Ok(()),
                    Err(e) => Err(e@),
                },
            ),
            ConnectAction::Stop => ConnectActionView::Stop,
        }
    }
}

impl ConnectActionView {
    /// The action that ends a request with a failure.
    pub open spec fn is_failure(self) -> bool {
        self matches ConnectActionView::Finish(Err(_))
    }

    /// The action makes the session live: its entry, a tunnel or its worker.
    pub open spec fn creates(self) -> bool {
        self is Register || self is StartTunnel || self is SpawnWorker
    }
}

/// A connect request as plain values.
pub struct ConnectView {
    pub id: Seq<char>,
    pub endpoint: EndpointView,
    pub targets: Seq<RelayTargetView>,
    pub jump: Option<JumpHostView>,
    pub phase: ConnectPhase,
    /// How many tunnels were asked for already.
    pub next_tunnel: nat,
}

impl ConnectView {
    /// The request in another phase.
    pub open spec fn at(self, phase: ConnectPhase) -> ConnectView {
        ConnectView { phase, ..self }
    }

    /// The end of the request with a failure.
    pub open spec fn fail(self, kind: ErrorKind, message: Seq<char>) -> (
        ConnectView,
        ConnectActionView,
    ) {
        (
            self.at(ConnectPhase::Done),
            ConnectActionView::Finish(Err(SessionErrorView { kind, message })),
        )
    }

    /// The start of a request for session `id`: nothing to do where the
    /// session is registered already; else the lookup of the jump host where
    /// one is named; else the connection to the target.
    pub open spec fn start(
        registered: bool,
        id: Seq<char>,
        endpoint: EndpointView,
        targets: Seq<RelayTargetView>,
    ) -> (ConnectView, ConnectActionView) {
        let request = ConnectView {
            id,
            endpoint,
            targets,
            jump: None,
            phase: ConnectPhase::Done,
            next_tunnel: 0,
        };
        if registered {
            (request, ConnectActionView::Finish(Ok(())))
        } else {
            match endpoint.jump_host_id {
                Some(jump_id) => (
                    request.at(ConnectPhase::JumpLookup),
                    ConnectActionView::LookupJumpHost { id: jump_id },
                ),
                None => (
                    request.at(ConnectPhase::Dial),
                    ConnectActionView::Dial {
                        link: Link::Main,
                        address: address_text(endpoint.host, endpoint.port as int),
                    },
                ),
            }
        }
    }

    /// The authentication against the jump host, or the failure for want of
    /// a credential.
    pub open spec fn jump_auth(self) -> (ConnectView, ConnectActionView) {
        match self.jump {
            Some(jump) => match auth_choice(jump.password, jump.private_key_path) {
                Some(method) => (
                    self.at(ConnectPhase::JumpAuth),
                    ConnectActionView::Authenticate {
                        link: Link::Jump,
                        username: jump.username,
                        method,
                    },
                ),
                None => self.fail(ErrorKind::Auth, "Jump host has no auth method"@),
            },
            None => self.fail(ErrorKind::Auth, "Jump host has no auth method"@),
        }
    }

    /// The authentication against the target, or the failure for want of a
    /// credential.
    pub open spec fn main_auth(self) -> (ConnectView, ConnectActionView) {
        match auth_choice(self.endpoint.password, self.endpoint.private_key) {
            Some(method) => (
                self.at(ConnectPhase::Auth),
                ConnectActionView::Authenticate {
                    link: Link::Main,
                    username: self.endpoint.username,
                    method,
                },
            ),
            None => self.fail(ErrorKind::Auth, "No authentication method provided"@),
        }
    }

    /// The authentication of the side channel, by the same choice as for the
    /// interactive session: the password where one is given, else the agent
    /// where a key is named. The side channel is registered only after it
    /// has authenticated.
    pub open spec fn side_auth(self) -> (ConnectView, ConnectActionView) {
        match auth_choice(self.endpoint.password, self.endpoint.private_key) {
            Some(method) => (
                self.at(ConnectPhase::SideAuth),
                ConnectActionView::Authenticate {
                    link: Link::Side,
                    username: self.endpoint.username,
                    method,
                },
            ),
            None => self.fail(ErrorKind::Auth, "No authentication method provided"@),
        }
    }

    /// The next tunnel, or the worker when no tunnel is left.
    pub open spec fn tunnel_or_worker(self, next: nat) -> (ConnectView, ConnectActionView) {
        if next < self.targets.len() {
            (
                ConnectView { phase: ConnectPhase::Tunnels, next_tunnel: next + 1, ..self },
                ConnectActionView::StartTunnel { target: self.targets[next as int] },
            )
        } else {
            (
                ConnectView { phase: ConnectPhase::Spawning, next_tunnel: next, ..self },
                ConnectActionView::SpawnWorker,
            )
        }
    }

    /// The request after `event`, and the action it asks for.
    pub open spec fn step<H>(self, event: ConnectEventView<H>) -> (ConnectView, ConnectActionView) {
        let failed = event is Failed;
        let reason = event.reason();
        match self.phase {
            ConnectPhase::JumpLookup => match event {
                ConnectEventView::JumpHost(Some(jump)) => (
                    ConnectView { jump: Some(jump), phase: ConnectPhase::JumpDial, ..self },
                    ConnectActionView::Dial {
                        link: Link::Jump,
                        address: address_text(jump.host, jump.port as int),
                    },
                ),
                ConnectEventView::Failed(_) => self.fail(ErrorKind::NotFound, reason),
                _ => self.fail(ErrorKind::NotFound, "Jump host not found"@),
            },
            ConnectPhase::JumpDial => if failed {
                self.fail(ErrorKind::Network, "Failed to connect to jump host: "@ + reason)
            } else {
                (
                    self.at(ConnectPhase::JumpHandshake),
                    ConnectActionView::Handshake { link: Link::Jump },
                )
            },
            ConnectPhase::JumpHandshake => if failed {
                self.fail(ErrorKind::Network, "Jump host handshake failed: "@ + reason)
            } else {
                self.jump_auth()
            },
            ConnectPhase::JumpAuth => if failed {
                self.fail(ErrorKind::Auth, "Jump host auth failed: "@ + reason)
            } else {
                (
                    self.at(ConnectPhase::JumpBind),
                    ConnectActionView::BindRelay {
                        target: RelayTargetView {
                            source_port: 0,
                            destination_host: self.endpoint.host,
                            destination_port: self.endpoint.port,
                        },
                    },
                )
            },
            ConnectPhase::JumpBind => match event {
                ConnectEventView::Bound(port) => (
                    self.at(ConnectPhase::Dial),
                    ConnectActionView::Dial {
                        link: Link::Main,
                        address: address_text(loopback_host(), port as int),
                    },
                ),
                _ => self.fail(ErrorKind::Network, reason),
            },
            ConnectPhase::Dial => if failed {
                self.fail(ErrorKind::Network, reason)
            } else {
                (self.at(ConnectPhase::Handshake), ConnectActionView::Handshake { link: Link::Main })
            },
            ConnectPhase::Handshake => if failed {
                self.fail(ErrorKind::Network, reason)
            } else {
                self.main_auth()
            },
            ConnectPhase::Auth => if failed {
                self.fail(ErrorKind::Auth, reason)
            } else {
                (
                    self.at(ConnectPhase::Shell),
                    ConnectActionView::OpenShell {
                        keepalive_secs: KEEPALIVE_SECS,
                        term: terminal_type(),
                        size: TerminalSize { cols: DEFAULT_COLS, rows: DEFAULT_ROWS },
                    },
                )
            },
            ConnectPhase::Shell => if failed {
                self.fail(ErrorKind::Transport, reason)
            } else {
                (
                    self.at(ConnectPhase::SideDial),
                    ConnectActionView::Dial {
                        link: Link::Side,
                        address: address_text(self.endpoint.host, self.endpoint.port as int),
                    },
                )
            },
            ConnectPhase::SideDial => if failed {
                self.fail(ErrorKind::Network, "Failed to create SFTP connection: "@ + reason)
            } else {
                (
                    self.at(ConnectPhase::SideHandshake),
                    ConnectActionView::Handshake { link: Link::Side },
                )
            },
            ConnectPhase::SideHandshake => if failed {
                self.fail(ErrorKind::Network, "SFTP handshake failed: "@ + reason)
            } else {
                self.side_auth()
            },
            ConnectPhase::SideAuth => if failed {
                self.fail(ErrorKind::Auth, "SFTP auth failed: "@ + reason)
            } else {
                (self.at(ConnectPhase::Registering), ConnectActionView::Register)
            },
            ConnectPhase::Registering => self.tunnel_or_worker(0),
            ConnectPhase::Tunnels => self.tunnel_or_worker(self.next_tunnel),
            ConnectPhase::Spawning => (
                self.at(ConnectPhase::Done),
                ConnectActionView::Finish(Ok(())),
            ),
            ConnectPhase::Done => (self, ConnectActionView::Stop),
        }
    }

    /// The session that the step on `event` puts into the registry: none but
    /// in answer to the action to register.
    pub open spec fn registers<H>(self, event: ConnectEventView<H>) -> Option<
        SshConnectionView<H>,
    > {
        if self.phase is Registering {
            Some(SshConnectionView::fresh(self.endpoint, event.session(), event.sftp_session()))
        } else {
            None
        }
    }

    /// The registry after the step on `event`.
    pub open spec fn sessions_after<H>(
        self,
        sessions: Map<Seq<char>, SshConnectionView<H>>,
        event: ConnectEventView<H>,
    ) -> Map<Seq<char>, SshConnectionView<H>> {
        match self.registers(event) {
            Some(connection) => sessions.insert(self.id, connection),
            None => sessions,
        }
    }

    /// The request after the given events, one after the other.
    pub open spec fn after<H>(self, events: Seq<ConnectEventView<H>>) -> ConnectView
        decreases events.len(),
    {
        if events.len() == 0 {
            self
        } else {
            self.after(events.drop_last()).step(events.last()).0
        }
    }

    /// The actions that the request asks for in answer to the given events.
    pub open spec fn actions<H>(self, events: Seq<ConnectEventView<H>>) -> Seq<ConnectActionView>
        decreases events.len(),
    {
        if events.len() == 0 {
            Seq::empty()
        } else {
            self.actions(events.drop_last()).push(
                self.after(events.drop_last()).step(events.last()).1,
            )
        }
    }

    /// The registry after the given events, one after the other.
    pub open spec fn sessions_after_all<H>(
        self,
        sessions: Map<Seq<char>, SshConnectionView<H>>,
        events: Seq<ConnectEventView<H>>,
    ) -> Map<Seq<char>, SshConnectionView<H>>
        decreases events.len(),
    {
        if events.len() == 0 {
            sessions
        } else {
            self.after(events.drop_last()).sessions_after(
                self.sessions_after_all(sessions, events.drop_last()),
                events.last(),
            )
        }
    }
}

/// The decisions of one connect request.
pub struct SshConnect {
    id: String,
    endpoint: Endpoint,
    targets: Vec<RelayTarget>,
    jump: Option<JumpHost>,
    phase: ConnectPhase,
    next_tunnel: usize,
}

/// The view of an optional jump host.
pub open spec fn opt_jump(jump: Option<JumpHost>) -> Option<JumpHostView> {
    match jump {
        Some(j) => Some(j@),
        None => None,
    }
}

impl View for SshConnect {
    type V = ConnectView;

    closed spec fn view(&self) -> ConnectView {
        ConnectView {
            id: self.id@,
            endpoint: self.endpoint@,
            targets: target_views(self.targets@),
            jump: opt_jump(self.jump),
            phase: self.phase,
            next_tunnel: self.next_tunnel as nat,
        }
    }
}

impl SshConnect {
    /// A request for session `id`, with its first action.
    pub fn begin(registered: bool, id: String, endpoint: Endpoint, targets: Vec<RelayTarget>) -> (r:
        (SshConnect, ConnectAction))
        ensures
            (r.0@, r.1@) == ConnectView::start(registered, id@, endpoint@, target_views(targets@)),
    {
        let mut request = SshConnect {
            id,
            endpoint,
            targets,
            jump: None,
            phase: ConnectPhase::Done,
            next_tunnel: 0,
        };
        if registered {
            (request, ConnectAction::Finish(Ok(())))
        } else {
            match request.endpoint.jump_host_id {
                Some(jump_id) => {
                    request.phase = ConnectPhase::JumpLookup;
                    (request, ConnectAction::LookupJumpHost { id: jump_id })
                },
                None => {
                    request.phase = ConnectPhase::Dial;
                    let address = socket_address(
                        request.endpoint.host.as_str(),
                        request.endpoint.port as i64,
                    );
                    (request, ConnectAction::Dial { link: Link::Main, address })
                },
            }
        }
    }

    /// The identifier of the session.
    pub fn id(&self) -> (id: &String)
        ensures
            id@ == self@.id,
    {
        &self.id
    }

    /// What the request has asked for last.
    pub fn phase(&self) -> (phase: ConnectPhase)
        ensures
            phase == self@.phase,
    {
        self.phase
    }

    /// Whether the request has ended.
    pub fn is_done(&self) -> (done: bool)
        ensures
            done == (self@.phase is Done),
    {
        match self.phase {
            ConnectPhase::Done => true,
            _ => false,
        }
    }

    fn fail(&mut self, kind: ErrorKind, prefix: &str, reason: &str) -> (action: ConnectAction)
        ensures
            (final(self)@, action@) == old(self)@.fail(kind, prefix@ + reason@),
    {
        self.phase = ConnectPhase::Done;
        ConnectAction::Finish(Err(SessionError::with_detail(kind, prefix, reason)))
    }

    fn jump_auth(&mut self) -> (action: ConnectAction)
        ensures
            (final(self)@, action@) == old(self)@.jump_auth(),
    {
        proof {
            reveal_strlit("");
        }
        assert("Jump host has no auth method"@ + ""@ =~= "Jump host has no auth method"@);
        match &self.jump {
            Some(jump) => match select_auth(&jump.password, &jump.private_key_path) {
                Some(method) => {
                    let username = jump.username.clone();
                    self.phase = ConnectPhase::JumpAuth;
                    ConnectAction::Authenticate { link: Link::Jump, username, method }
                },
                None => self.fail(ErrorKind::Auth, "Jump host has no auth method", ""),
            },
            None => self.fail(ErrorKind::Auth, "Jump host has no auth method", ""),
        }
    }

    fn main_auth(&mut self) -> (action: ConnectAction)
        ensures
            (final(self)@, action@) == old(self)@.main_auth(),
    {
        proof {
            reveal_strlit("");
        }
        assert("No authentication method provided"@ + ""@ =~= "No authentication method provided"@);
        match select_auth(&self.endpoint.password, &self.endpoint.private_key) {
            Some(method) => {
                self.phase = ConnectPhase::Auth;
                ConnectAction::Authenticate {
                    link: Link::Main,
                    username: self.endpoint.username.clone(),
                    method,
                }
            },
            None => self.fail(ErrorKind::Auth, "No authentication method provided", ""),
        }
    }

    fn side_auth(&mut self) -> (action: ConnectAction)
        ensures
            (final(self)@, action@) == old(self)@.side_auth(),
    {
        proof {
            reveal_strlit("");
        }
        assert("No authentication method provided"@ + ""@ =~= "No authentication method provided"@);
        match select_auth(&self.endpoint.password, &self.endpoint.private_key) {
            Some(method) => {
                self.phase = ConnectPhase::SideAuth;
                ConnectAction::Authenticate {
                    link: Link::Side,
                    username: self.endpoint.username.clone(),
                    method,
                }
            },
            None => self.fail(ErrorKind::Auth, "No authentication method provided", ""),
        }
    }

    fn tunnel_or_worker(&mut self, next: usize) -> (action: ConnectAction)
        ensures
            (final(self)@, action@) == old(self)@.tunnel_or_worker(next as nat),
    {
        if next < self.targets.len() {
            let target = self.targets[next].duplicate();
            self.phase = ConnectPhase::Tunnels;
            self.next_tunnel = next + 1;
            ConnectAction::StartTunnel { target }
        } else {
            self.phase = ConnectPhase::Spawning;
            self.next_tunnel = next;
            ConnectAction::SpawnWorker
        }
    }

    fn step_jump(&mut self, event_failed: bool, reason: &str, found: Option<JumpHost>, bound: Option<
        u16,
    >) -> (action: ConnectAction)
        requires
            phase_rank(old(self)@.phase) <= 4,
        ensures
            (final(self)@, action@) == old(self)@.step_jump_spec(
                event_failed,
                reason@,
                opt_jump(found),
                bound,
            ),
    {
        proof {
            reveal_strlit("");
            reveal_strlit("127.0.0.1");
        }
        assert(""@ + reason@ =~= reason@);
        match self.phase {
            ConnectPhase::JumpLookup => {
                if event_failed {
                    self.fail(ErrorKind::NotFound, "", reason)
                } else {
                    match found {
                        Some(jump) => {
                            let address = socket_address(jump.host.as_str(), jump.port as i64);
                            self.jump = Some(jump);
                            self.phase = ConnectPhase::JumpDial;
                            ConnectAction::Dial { link: Link::Jump, address }
                        },
                        None => {
                            assert("Jump host not found"@ + ""@ =~= "Jump host not found"@);
                            self.fail(ErrorKind::NotFound, "Jump host not found", "")
                        },
                    }
                }
            },
            ConnectPhase::JumpDial => {
                if event_failed {
                    self.fail(ErrorKind::Network, "Failed to connect to jump host: ", reason)
                } else {
                    self.phase = ConnectPhase::JumpHandshake;
                    ConnectAction::Handshake { link: Link::Jump }
                }
            },
            ConnectPhase::JumpHandshake => {
                if event_failed {
                    self.fail(ErrorKind::Network, "Jump host handshake failed: ", reason)
                } else {
                    self.jump_auth()
                }
            },
            ConnectPhase::JumpAuth => {
                if event_failed {
                    self.fail(ErrorKind::Auth, "Jump host auth failed: ", reason)
                } else {
                    let target = RelayTarget {
                        source_port: 0,
                        destination_host: self.endpoint.host.clone(),
                        destination_port: self.endpoint.port,
                    };
                    self.phase = ConnectPhase::JumpBind;
                    ConnectAction::BindRelay { target }
                }
            },
            _ => {
                if event_failed {
                    self.fail(ErrorKind::Network, "", reason)
                } else {
                    match (found, bound) {
                        (None, Some(port)) => {
                            let address = socket_address("127.0.0.1", port as i64);
                            self.phase = ConnectPhase::Dial;
                            ConnectAction::Dial { link: Link::Main, address }
                        },
                        _ => {
                            assert(""@ + ""@ =~= Seq::<char>::empty());
                            self.fail(ErrorKind::Network, "", "")
                        },
                    }
                }
            },
        }
    }

    fn step_main(&mut self, event_failed: bool, reason: &str) -> (action: ConnectAction)
        requires
            5 <= phase_rank(old(self)@.phase) <= 11,
        ensures
            (final(self)@, action@) == old(self)@.step_main_spec(event_failed, reason@),
    {
        proof {
            reveal_strlit("");
        }
        assert(""@ + reason@ =~= reason@);
        match self.phase {
            ConnectPhase::Dial => {
                if event_failed {
                    self.fail(ErrorKind::Network, "", reason)
                } else {
                    self.phase = ConnectPhase::Handshake;
                    ConnectAction::Handshake { link: Link::Main }
                }
            },
            ConnectPhase::Handshake => {
                if event_failed {
                    self.fail(ErrorKind::Network, "", reason)
                } else {
                    self.main_auth()
                }
            },
            ConnectPhase::Auth => {
                if event_failed {
                    self.fail(ErrorKind::Auth, "", reason)
                } else {
                    self.phase = ConnectPhase::Shell;
                    ConnectAction::OpenShell {
                        keepalive_secs: KEEPALIVE_SECS,
                        term: String::from_str("xterm-256color"),
                        size: TerminalSize { cols: DEFAULT_COLS, rows: DEFAULT_ROWS },
                    }
                }
            },
            ConnectPhase::Shell => {
                if event_failed {
                    self.fail(ErrorKind::Transport, "", reason)
                } else {
                    let address = socket_address(
                        self.endpoint.host.as_str(),
                        self.endpoint.port as i64,
                    );
                    self.phase = ConnectPhase::SideDial;
                    ConnectAction::Dial { link: Link::Side, address }
                }
            },
            ConnectPhase::SideDial => {
                if event_failed {
                    self.fail(ErrorKind::Network, "Failed to create SFTP connection: ", reason)
                } else {
                    self.phase = ConnectPhase::SideHandshake;
                    ConnectAction::Handshake { link: Link::Side }
                }
            },
            ConnectPhase::SideHandshake => {
                if event_failed {
                    self.fail(ErrorKind::Network, "SFTP handshake failed: ", reason)
                } else {
                    self.side_auth()
                }
            },
            _ => {
                if event_failed {
                    self.fail(ErrorKind::Auth, "SFTP auth failed: ", reason)
                } else {
                    self.phase = ConnectPhase::Registering;
                    ConnectAction::Register
                }
            },
        }
    }

    /// Takes what the last action brought and names the next action.
    ///
    /// The registry changes in one step only: the one that answers the
    /// action to register puts the session under its identifier, in place of
    /// whatever was registered there. An event that reports no failure
    /// counts as success.
    pub fn step<H>(&mut self, state: &mut SshState<H>, event: ConnectEvent<H>) -> (action:
        ConnectAction)
        ensures
            (final(self)@, action@) == old(self)@.step(event@),
            final(state)@ == old(self)@.sessions_after(old(state)@, event@),
    {
        let rank: u8 = phase_number(self.phase);
        if rank <= 4 {
            match event {
                ConnectEvent::Failed(reason) => self.step_jump(true, reason.as_str(), None, None),
                ConnectEvent::JumpHost(Some(server)) => {
                    let jump = JumpHost::from_server(&server);
                    self.step_jump(false, "", Some(jump), None)
                },
                ConnectEvent::Bound(port) => self.step_jump(false, "", None, Some(port)),
                _ => self.step_jump(false, "", None, None),
            }
        } else if rank <= 11 {
            match event {
                ConnectEvent::Failed(reason) => self.step_main(true, reason.as_str()),
                _ => self.step_main(false, ""),
            }
        } else {
            match self.phase {
                ConnectPhase::Registering => {
                    let connection = match event {
                        ConnectEvent::Sessions { session, sftp_session } => SshConnection::new(
                            self.endpoint.duplicate(),
                            session,
                            sftp_session,
                        ),
                        _ => SshConnection::new(self.endpoint.duplicate(), None, None),
                    };
                    state.register(self.id.clone(), connection);
                    self.tunnel_or_worker(0)
                },
                ConnectPhase::Tunnels => {
                    let next = self.next_tunnel;
                    self.tunnel_or_worker(next)
                },
                ConnectPhase::Spawning => {
                    self.phase = ConnectPhase::Done;
                    ConnectAction::Finish(Ok(()))
                },
                _ => ConnectAction::Stop,
            }
        }
    }
}

impl ConnectView {
    spec fn step_jump_spec(
        self,
        failed: bool,
        reason: Seq<char>,
        found: Option<JumpHostView>,
        bound: Option<u16>,
    ) -> (ConnectView, ConnectActionView) {
        let event: ConnectEventView<()> = if failed {
            ConnectEventView::Failed(reason)
        } else if found is Some {
            ConnectEventView::JumpHost(found)
        } else if bound is Some {
            ConnectEventView::Bound(bound->0)
        } else {
            ConnectEventView::Tick
        };
        self.step(event)
    }

    spec fn step_main_spec(self, failed: bool, reason: Seq<char>) -> (
        ConnectView,
        ConnectActionView,
    ) {
        let event: ConnectEventView<()> = if failed {
            ConnectEventView::Failed(reason)
        } else {
            ConnectEventView::Tick
        };
        self.step(event)
    }
}

/// The place of a phase in the order of a connect request.
pub fn phase_number(phase: ConnectPhase) -> (rank: u8)
    ensures
        rank == phase_rank(phase),
{
    match phase {
        ConnectPhase::JumpLookup => 0,
        ConnectPhase::JumpDial => 1,
        ConnectPhase::JumpHandshake => 2,
        ConnectPhase::JumpAuth => 3,
        ConnectPhase::JumpBind => 4,
        ConnectPhase::Dial => 5,
        ConnectPhase::Handshake => 6,
        ConnectPhase::Auth => 7,
        ConnectPhase::Shell => 8,
        ConnectPhase::SideDial => 9,
        ConnectPhase::SideHandshake => 10,
        ConnectPhase::SideAuth => 11,
        ConnectPhase::Registering => 12,
        ConnectPhase::Tunnels => 13,
        ConnectPhase::Spawning => 14,
        ConnectPhase::Done => 15,
    }
}

/// What one step can do: a request never goes back in its order; it fails
/// only before the registration and is done then; the actions that make the
/// session live belong to the phases after the side channel; the registry
/// changes only in answer to the action to register; and a request that is
/// done stays as it is.
pub proof fn lemma_connect_step_order<H>(c: ConnectView, event: ConnectEventView<H>)
    ensures
        phase_rank(c.step(event).0.phase) >= phase_rank(c.phase),
        c.step(event).1.is_failure() ==> phase_rank(c.phase) <= 11 && c.step(event).0.phase is Done,
        c.step(event).1.creates() ==> phase_rank(c.step(event).0.phase) >= 12,
        c.step(event).1.creates() ==> !(c.step(event).0.phase is Done),
        c.registers(event) is Some ==> c.phase is Registering,
        c.phase is Done ==> c.step(event) == (c, ConnectActionView::Stop),
        c.step(event).0.id == c.id,
{
}

proof fn lemma_connect_action_at<H>(c: ConnectView, events: Seq<ConnectEventView<H>>, j: int)
    requires
        0 <= j < events.len(),
    ensures
        c.actions(events).len() == events.len(),
        c.actions(events)[j] == c.after(events.subrange(0, j)).step(events[j]).1,
    decreases events.len(),
{
    lemma_connect_length(c, events);
    if j == events.len() - 1 {
        assert(events.drop_last() =~= events.subrange(0, j));
    } else {
        lemma_connect_action_at(c, events.drop_last(), j);
        assert(events.drop_last().subrange(0, j) =~= events.subrange(0, j));
    }
}

/// A connect request answers every event with exactly one action.
pub proof fn lemma_connect_length<H>(c: ConnectView, events: Seq<ConnectEventView<H>>)
    ensures
        c.actions(events).len() == events.len(),
    decreases events.len(),
{
    if events.len() > 0 {
        lemma_connect_length(c, events.drop_last());
    }
}

proof fn lemma_connect_rank<H>(c: ConnectView, events: Seq<ConnectEventView<H>>, a: int, b: int)
    requires
        0 <= a <= b <= events.len(),
    ensures
        phase_rank(c.after(events.subrange(0, a)).phase) <= phase_rank(
            c.after(events.subrange(0, b)).phase,
        ),
    decreases b - a,
{
    if a < b {
        lemma_connect_rank(c, events, a, b - 1);
        let longer = events.subrange(0, b);
        assert(longer.drop_last() =~= events.subrange(0, b - 1));
        lemma_connect_step_order(c.after(events.subrange(0, b - 1)), longer.last());
    }
}

proof fn lemma_connect_untouched<H>(
    c: ConnectView,
    sessions: Map<Seq<char>, SshConnectionView<H>>,
    events: Seq<ConnectEventView<H>>,
)
    requires
        forall|j: int|
            0 <= j < events.len() ==> !(#[trigger] c.after(events.subrange(0, j)).phase
                is Registering),
    ensures
        c.sessions_after_all(sessions, events) == sessions,
    decreases events.len(),
{
    if events.len() > 0 {
        let front = events.drop_last();
        assert forall|j: int| 0 <= j < front.len() implies !(#[trigger] c.after(
            front.subrange(0, j),
        ).phase is Registering) by {
            assert(front.subrange(0, j) =~= events.subrange(0, j));
        }
        lemma_connect_untouched(c, sessions, front);
        assert(front =~= events.subrange(0, events.len() - 1));
        assert(!(c.after(events.subrange(0, events.len() - 1)).phase is Registering));
    }
}

proof fn lemma_connect_failed_at<H>(
    c: ConnectView,
    events: Seq<ConnectEventView<H>>,
    i: int,
    j: int,
)
    requires
        0 <= i < events.len(),
        0 <= j < events.len(),
        c.actions(events).len() == events.len(),
        c.actions(events)[i].is_failure(),
    ensures
        !c.actions(events)[j].creates(),
        !(c.after(events.subrange(0, j)).phase is Registering),
{
    lemma_connect_action_at(c, events, i);
    let before = c.after(events.subrange(0, i));
    lemma_connect_step_order(before, events[i]);
    assert(events.subrange(0, i + 1).drop_last() =~= events.subrange(0, i));
    assert(events.subrange(0, i + 1).last() == events[i]);
    assert(c.after(events.subrange(0, i + 1)).phase is Done);
    lemma_connect_action_at(c, events, j);
    let at_j = c.after(events.subrange(0, j));
    lemma_connect_step_order(at_j, events[j]);
    if j < i {
        assert(events.subrange(0, j + 1).drop_last() =~= events.subrange(0, j));
        assert(events.subrange(0, j + 1).last() == events[j]);
        lemma_connect_rank(c, events, j + 1, i);
        lemma_connect_rank(c, events, j, i);
    } else if j > i {
        lemma_connect_rank(c, events, i + 1, j);
    }
}

/// A connect request that fails has made nothing: whatever events the run
/// holds, before the failure or after it, no action of the run registers
/// the session, starts a tunnel or starts a worker, and the registry is
/// after the run what it was before.
pub proof fn lemma_failed_connect_creates_nothing<H>(
    c: ConnectView,
    sessions: Map<Seq<char>, SshConnectionView<H>>,
    events: Seq<ConnectEventView<H>>,
    i: int,
)
    requires
        0 <= i < events.len(),
        c.actions(events)[i].is_failure(),
    ensures
        c.actions(events).len() == events.len(),
        forall|j: int| 0 <= j < events.len() ==> !(#[trigger] c.actions(events)[j]).creates(),
        c.sessions_after_all(sessions, events) == sessions,
{
    lemma_connect_length(c, events);
    assert forall|j: int| 0 <= j < events.len() implies !(#[trigger] c.actions(events)[j]).creates(
    ) by {
        lemma_connect_failed_at(c, events, i, j);
    }
    assert forall|j: int| 0 <= j < events.len() implies !(#[trigger] c.after(
        events.subrange(0, j),
    ).phase is Registering) by {
        lemma_connect_failed_at(c, events, i, j);
    }
    lemma_connect_untouched(c, sessions, events);
}

proof fn lemma_connect_done_at<H>(c: ConnectView, events: Seq<ConnectEventView<H>>, j: int)
    requires
        c.phase is Done,
        0 <= j < events.len(),
    ensures
        c.actions(events)[j] is Stop,
        !(c.after(events.subrange(0, j)).phase is Registering),
{
    lemma_connect_action_at(c, events, j);
    assert(events.subrange(0, 0) =~= Seq::<ConnectEventView<H>>::empty());
    lemma_connect_rank(c, events, 0, j);
    lemma_connect_step_order(c.after(events.subrange(0, j)), events[j]);
}

/// A connect request for an identifier that is registered already does
/// nothing: it ends at once with success, and whatever events it is given
/// after that, it asks for nothing and leaves the registry as it is. So a
/// second request after a first one starts no second worker.
pub proof fn lemma_connect_is_idempotent<H>(
    sessions: Map<Seq<char>, SshConnectionView<H>>,
    id: Seq<char>,
    endpoint: EndpointView,
    targets: Seq<RelayTargetView>,
    events: Seq<ConnectEventView<H>>,
)
    requires
        sessions.contains_key(id),
    ensures
        ({
            let (request, first) = ConnectView::start(
                sessions.contains_key(id),
                id,
                endpoint,
                targets,
            );
            &&& first == ConnectActionView::Finish(Ok(()))
            &&& request.actions(events).len() == events.len()
            &&& forall|j: int| 0 <= j < events.len() ==> #[trigger] request.actions(events)[j] is Stop
            &&& request.sessions_after_all(sessions, events) == sessions
        }),
{
    let (request, first) = ConnectView::start(true, id, endpoint, targets);
    assert forall|j: int| 0 <= j < events.len() implies #[trigger] request.actions(events)[j]
        is Stop by {
        lemma_connect_done_at(request, events, j);
    }
    assert forall|j: int| 0 <= j < events.len() implies !(#[trigger] request.after(
        events.subrange(0, j),
    ).phase is Registering) by {
        lemma_connect_done_at(request, events, j);
    }
    lemma_connect_length(request, events);
    lemma_connect_untouched(request, sessions, events);
}

/// The step that answers the action to register leaves the session in the
/// registry under the identifier of the request, without pending commands
/// and with the endpoint of the request.
pub proof fn lemma_connect_registers_its_session<H>(
    c: ConnectView,
    sessions: Map<Seq<char>, SshConnectionView<H>>,
    event: ConnectEventView<H>,
)
    requires
        c.phase is Registering,
    ensures
        c.sessions_after(sessions, event).contains_key(c.id),
        c.sessions_after(sessions, event)[c.id].endpoint == c.endpoint,
        c.sessions_after(sessions, event)[c.id].writes.len() == 0,
        c.sessions_after(sessions, event)[c.id].resizes.len() == 0,
        forall|k: Seq<char>|
            k != c.id ==> (c.sessions_after(sessions, event).contains_key(k)
                <==> sessions.contains_key(k)),
{
}

proof fn lemma_connect_tunnels<H>(c: ConnectView, events: Seq<ConnectEventView<H>>, k: int)
    requires
        c.phase is Registering,
        1 <= k <= c.targets.len(),
        k <= events.len(),
    ensures
        c.after(events.subrange(0, k)) == (ConnectView {
            phase: ConnectPhase::Tunnels,
            next_tunnel: k as nat,
            ..c
        }),
        c.actions(events)[k - 1] == (ConnectActionView::StartTunnel { target: c.targets[k - 1] }),
    decreases k,
{
    lemma_connect_action_at(c, events, k - 1);
    assert(events.subrange(0, k).drop_last() =~= events.subrange(0, k - 1));
    assert(events.subrange(0, k).last() == events[k - 1]);
    if k == 1 {
        assert(events.subrange(0, 0) =~= Seq::<ConnectEventView<H>>::empty());
    } else {
        lemma_connect_tunnels(c, events, k - 1);
    }
}

/// A connect request that has come to its registration goes on without
/// fail: whatever the events are, it asks for one tunnel for each of its
/// targets, in their order, then for one worker, and then ends with
/// success.
pub proof fn lemma_connect_ends_with_tunnels_and_one_worker<H>(
    c: ConnectView,
    events: Seq<ConnectEventView<H>>,
)
    requires
        c.phase is Registering,
        events.len() == c.targets.len() + 2,
    ensures
        ({
            let n = c.targets.len() as int;
            let actions = c.actions(events);
            &&& actions.len() == n + 2
            &&& forall|k: int|
                0 <= k < n ==> #[trigger] actions[k] == (ConnectActionView::StartTunnel {
                    target: c.targets[k],
                })
            &&& actions[n] == ConnectActionView::SpawnWorker
            &&& actions[n + 1] == ConnectActionView::Finish(Ok(()))
            &&& c.after(events).phase is Done
        }),
{
    let n = c.targets.len() as int;
    lemma_connect_length(c, events);
    assert forall|k: int| 0 <= k < n implies #[trigger] c.actions(events)[k] == (
    ConnectActionView::StartTunnel { target: c.targets[k] }) by {
        lemma_connect_tunnels(c, events, k + 1);
    }
    let before_worker = c.after(events.subrange(0, n));
    if n == 0 {
        assert(events.subrange(0, 0) =~= Seq::<ConnectEventView<H>>::empty());
    } else {
        lemma_connect_tunnels(c, events, n);
    }
    lemma_connect_action_at(c, events, n);
    assert(c.actions(events)[n] == ConnectActionView::SpawnWorker);
    assert(events.subrange(0, n + 1).drop_last() =~= events.subrange(0, n));
    assert(events.subrange(0, n + 1).last() == events[n]);
    assert(c.after(events.subrange(0, n + 1)).phase is Spawning);
    lemma_connect_action_at(c, events, n + 1);
    assert(events.subrange(0, n + 2) =~= events);
    assert(events.drop_last() =~= events.subrange(0, n + 1));
}

/// A connect request asks for a worker at most once, and registers at most
/// once: what follows either action in a run is neither of them again.
pub proof fn lemma_connect_spawns_at_most_one_worker<H>(
    c: ConnectView,
    events: Seq<ConnectEventView<H>>,
    i: int,
    j: int,
)
    requires
        0 <= i < j < events.len(),
    ensures
        c.actions(events)[i] is SpawnWorker ==> !(c.actions(events)[j] is SpawnWorker) && !(
        c.actions(events)[j] is Register) && !(c.actions(events)[j] is StartTunnel),
        c.actions(events)[i] is Register ==> !(c.actions(events)[j] is Register),
{
    lemma_connect_action_at(c, events, i);
    lemma_connect_action_at(c, events, j);
    let at_i = c.after(events.subrange(0, i));
    let at_j = c.after(events.subrange(0, j));
    lemma_connect_step_order(at_i, events[i]);
    lemma_connect_step_order(at_j, events[j]);
    assert(events.subrange(0, i + 1).drop_last() =~= events.subrange(0, i));
    assert(events.subrange(0, i + 1).last() == events[i]);
    lemma_connect_rank(c, events, i + 1, j);
}

/// The side channel is authenticated before it is registered. A request
/// asks to register only in answer to a successful authentication of the
/// side channel; and after the handshake of the side channel it asks for
/// that authentication by the same choice as for the interactive session:
/// with the password where one is given, else with the agent where a key is
/// named.
pub proof fn lemma_side_channel_is_authenticated<H>(c: ConnectView, event: ConnectEventView<H>)
    ensures
        c.step(event).1 is Register ==> c.phase is SideAuth && !(event is Failed),
        c.phase is SideHandshake && !(event is Failed) ==> c.step(event) == c.side_auth(),
        c.phase is SideAuth && event is Failed ==> c.step(event).1.is_failure(),
        c.endpoint.password matches Some(p) ==> c.side_auth().1 == (
        ConnectActionView::Authenticate {
            link: Link::Side,
            username: c.endpoint.username,
            method: AuthMethodView::Password(p),
        }),
        c.endpoint.password is None && c.endpoint.private_key is Some ==> c.side_auth().1 == (
        ConnectActionView::Authenticate {
            link: Link::Side,
            username: c.endpoint.username,
            method: AuthMethodView::Agent,
        }),
{
}

/// In a run, the action to register comes directly behind the action to
/// authenticate the side channel, and in answer to an event that tells no
/// failure.
pub proof fn lemma_register_follows_side_authentication<H>(
    c: ConnectView,
    events: Seq<ConnectEventView<H>>,
    j: int,
)
    requires
        1 <= j < events.len(),
        c.actions(events)[j] is Register,
    ensures
        c.actions(events)[j - 1] matches ConnectActionView::Authenticate { link, .. } && link
            == Link::Side,
        !(events[j] is Failed),
{
    lemma_connect_action_at(c, events, j);
    lemma_connect_action_at(c, events, j - 1);
    assert(events.subrange(0, j).drop_last() =~= events.subrange(0, j - 1));
    assert(events.subrange(0, j).last() == events[j - 1]);
}

proof fn lemma_connect_run_keeps_entry<H>(
    c: ConnectView,
    sessions: Map<Seq<char>, SshConnectionView<H>>,
    events: Seq<ConnectEventView<H>>,
    k: int,
)
    requires
        0 <= k <= events.len(),
        phase_rank(c.phase) <= 12,
    ensures
        c.after(events.subrange(0, k)).id == c.id,
        c.after(events.subrange(0, k)).endpoint == c.endpoint,
        phase_rank(c.after(events.subrange(0, k)).phase) <= 12 || registered_as(
            c.sessions_after_all(sessions, events.subrange(0, k)),
            c.id,
            c.endpoint,
        ) || exists|i: int| 0 <= i < k && (#[trigger] c.actions(events)[i]).is_failure(),
        forall|i: int|
            0 <= i < k && #[trigger] c.actions(events)[i] == ConnectActionView::Finish(Ok(()))
                ==> registered_as(
                c.sessions_after_all(sessions, events.subrange(0, k)),
                c.id,
                c.endpoint,
            ),
    decreases k,
{
    if k == 0 {
        assert(events.subrange(0, 0) =~= Seq::<ConnectEventView<H>>::empty());
    } else {
        lemma_connect_run_keeps_entry(c, sessions, events, k - 1);
        let prefix = events.subrange(0, k);
        assert(prefix.drop_last() =~= events.subrange(0, k - 1));
        assert(prefix.last() == events[k - 1]);
        lemma_connect_action_at(c, events, k - 1);
        let before = c.after(events.subrange(0, k - 1));
        lemma_connect_step_order(before, events[k - 1]);
        if exists|i: int| 0 <= i < k - 1 && (#[trigger] c.actions(events)[i]).is_failure() {
            let i = choose|i: int| 0 <= i < k - 1 && (#[trigger] c.actions(events)[i]).is_failure();
            assert(0 <= i < k && c.actions(events)[i].is_failure());
            lemma_connect_action_at(c, events, i);
            lemma_connect_step_order(c.after(events.subrange(0, i)), events[i]);
            assert(events.subrange(0, i + 1).drop_last() =~= events.subrange(0, i));
            assert(events.subrange(0, i + 1).last() == events[i]);
            lemma_connect_rank(c, events, i + 1, k - 1);
        }
        if c.actions(events)[k - 1].is_failure() {
            assert(0 <= k - 1 < k && c.actions(events)[k - 1].is_failure());
        }
    }
}

/// Whether session `id` is registered with the given endpoint.
pub open spec fn registered_as<H>(
    sessions: Map<Seq<char>, SshConnectionView<H>>,
    id: Seq<char>,
    endpoint: EndpointView,
) -> bool {
    sessions.contains_key(id) && sessions[id].endpoint == endpoint
}

/// A connect request that ends with success has registered its session: in
/// a run of a request that had not come to its registration when the run
/// began, an end with success leaves the identifier of the request in the
/// registry, with the endpoint of the request.
pub proof fn lemma_successful_connect_has_registered<H>(
    c: ConnectView,
    sessions: Map<Seq<char>, SshConnectionView<H>>,
    events: Seq<ConnectEventView<H>>,
    i: int,
)
    requires
        phase_rank(c.phase) <= 12,
        0 <= i < events.len(),
        c.actions(events)[i] == ConnectActionView::Finish(Ok(())),
    ensures
        registered_as(c.sessions_after_all(sessions, events), c.id, c.endpoint),
{
    lemma_connect_run_keeps_entry(c, sessions, events, events.len() as int);
    assert(events.subrange(0, events.len() as int) =~= events);
}

/// A request that begins for an identifier that is not registered has not
/// come to its registration, so what holds of such runs holds of it.
pub proof fn lemma_new_connect_starts_before_registration(
    id: Seq<char>,
    endpoint: EndpointView,
    targets: Seq<RelayTargetView>,
)
    ensures
        phase_rank(ConnectView::start(false, id, endpoint, targets).0.phase) <= 12,
        ConnectView::start(false, id, endpoint, targets).0.id == id,
        ConnectView::start(false, id, endpoint, targets).0.endpoint == endpoint,
        ConnectView::start(false, id, endpoint, targets).0.targets == targets,
{
}

} // verus!
