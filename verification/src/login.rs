//! Opening an authenticated remote session that is no interactive session:
//! the side sessions for file listings, for the monitor panel and for small
//! queries, and the probe that tests a server entry.
//!
//! The order is always the same: the address, the connection, the
//! handshake, the authentication. What differs between the uses is the
//! wording of the failures, the time limits, and whether a key may stand in
//! for a password. The machine decides; its caller acts.

use vstd::prelude::*;
use crate::session::auth_choice;
use crate::session::clone_opt_text;
use crate::session::opt_text;
use crate::session::select_auth;
use crate::session::AuthMethod;
use crate::session::AuthMethodView;
use crate::session::ErrorKind;
use crate::session::SessionError;
use crate::session::SessionErrorView;
use crate::ssh::Endpoint;
use crate::text::address_text;
use crate::text::socket_address;

verus! {

/// Seconds that a connection attempt with a time limit may take.
pub const CONNECT_TIMEOUT_SECS: u64 = 5;

/// Milliseconds that an operation on a session with a time limit may take.
pub const SESSION_TIMEOUT_MS: u32 = 5000;

/// The uses of a login.
#[derive(Debug, Clone, Copy, PartialEq, Eq, Structural)]
pub enum LoginProfile {
    /// A side session: failures are passed on as they come, no time limits.
    Plain,
    /// The session of the monitor panel: time limits on everything.
    Monitor,
    /// The test of a server entry: a password is required, and the session
    /// is asked at the end whether it counts as authenticated.
    Probe,
}

impl LoginProfile {
    /// Whether the address must be a literal one and is parsed first.
    pub open spec fn parses_address(self) -> bool {
        !(self is Plain)
    }

    /// The start of the message when the address cannot be parsed.
    pub open spec fn address_prefix(self) -> Seq<char> {
        "Invalid address: "@
    }

    /// The start of the message when the connection fails.
    pub open spec fn dial_prefix(self) -> Seq<char> {
        match self {
            LoginProfile::Plain => Seq::empty(),
            LoginProfile::Monitor => "TCP connection failed: "@,
            LoginProfile::Probe => "Connection failed: "@,
        }
    }

    /// The start of the message when the handshake fails.
    pub open spec fn handshake_prefix(self) -> Seq<char> {
        match self {
            LoginProfile::Plain => Seq::empty(),
            _ => "SSH handshake failed: "@,
        }
    }

    /// The start of the message when the credential is refused.
    pub open spec fn auth_prefix(self) -> Seq<char> {
        match self {
            LoginProfile::Probe => "Authentication failed: "@,
            _ => Seq::empty(),
        }
    }

    /// The message when no usable credential is given.
    pub open spec fn no_credential(self) -> Seq<char> {
        match self {
            LoginProfile::Probe => "Password is required for testing"@,
            _ => "No authentication method provided"@,
        }
    }

    /// The method for the given credentials: for a probe the password or
    /// nothing; else the password, or the agent where a key is named.
    pub open spec fn method(
        self,
        password: Option<Seq<char>>,
        private_key: Option<Seq<char>>,
    ) -> Option<AuthMethodView> {
        match self {
            LoginProfile::Probe => auth_choice(password, None),
            _ => auth_choice(password, private_key),
        }
    }

    /// The time limit of the connection attempt, in seconds.
    pub open spec fn connect_timeout(self) -> Option<u64> {
        match self {
            LoginProfile::Plain => None,
            _ => Some(CONNECT_TIMEOUT_SECS),
        }
    }

    /// The time limit of the operations on the session, in milliseconds.
    pub open spec fn session_timeout(self) -> Option<u32> {
        match self {
            LoginProfile::Monitor => Some(SESSION_TIMEOUT_MS),
            _ => None,
        }
    }
}

/// What a login has asked for last.
#[derive(Debug, Clone, Copy, PartialEq, Eq, Structural)]
pub enum LoginPhase {
    /// The parsing of the address.
    Resolving,
    /// The connection.
    Dialling,
    /// The handshake.
    Handshaking,
    /// The authentication.
    Authenticating,
    /// The session's word that it is authenticated.
    Confirming,
    /// Nothing more: the login has ended.
    Done,
}

/// What the last action of a login brought.
#[derive(Debug, PartialEq, Eq)]
pub enum LoginEvent {
    /// The action succeeded.
    Tick,
    /// The action failed, with the reason.
    Failed(String),
}

/// A login event as plain values.
pub enum LoginEventView {
    Tick,
    Failed(Seq<char>),
}

impl View for LoginEvent {
    type V = LoginEventView;

    open spec fn view(&self) -> LoginEventView {
        match *self {
            LoginEvent::Tick => LoginEventView::Tick,
            LoginEvent::Failed(reason) => LoginEventView::Failed(reason@),
        }
    }
}

/// What the caller of a login has to do next.
#[derive(Debug, PartialEq, Eq)]
pub enum LoginAction {
    /// Parse the address as a literal socket address.
    ParseAddress { address: String },
    /// Open a connection to the address, within the time limit if there is
    /// one; with a limit, the connection gets the same limit for its reads
    /// and writes.
    Dial { address: String, timeout_secs: Option<u64> },
    /// Run the handshake, on a session with the time limit if there is one.
    Handshake { timeout_ms: Option<u32> },
    /// Authenticate as the user with the method.
    Authenticate { username: String, method: AuthMethod },
    /// Ask the session whether it counts as authenticated; it fails if not.
    ConfirmAuthenticated,
    /// The login has ended with this result.
    Finish(Result<(), SessionError>),
    /// Nothing is left to do.
    Stop,
}

/// A login action as plain values.
pub enum LoginActionView {
    ParseAddress { address: Seq<char> },
    Dial { address: Seq<char>, timeout_secs: Option<u64> },
    Handshake { timeout_ms: Option<u32> },
    Authenticate { username: Seq<char>, method: AuthMethodView },
    ConfirmAuthenticated,
    Finish(Result<(), SessionErrorView>),
    Stop,
}

impl View for LoginAction {
    type V = LoginActionView;

    open spec fn view(&self) -> LoginActionView {
        match *self {
            LoginAction::ParseAddress { address } => LoginActionView::ParseAddress {
                address: address@,
            },
            LoginAction::Dial { address, timeout_secs } => LoginActionView::Dial {
                address: address@,
                timeout_secs,
            },
            LoginAction::Handshake { timeout_ms } => LoginActionView::Handshake { timeout_ms },
            LoginAction::Authenticate { username, method } => LoginActionView::Authenticate {
                username: username@,
                method: method@,
            },
            LoginAction::ConfirmAuthenticated => LoginActionView::ConfirmAuthenticated,
            LoginAction::Finish(result) => LoginActionView::Finish(
                match result {
                    Ok(_) => Ok(()),
                    Err(e) => Err(e@),
                },
            ),
            LoginAction::Stop => LoginActionView::Stop,
        }
    }
}

/// A login as plain values.
pub struct LoginView {
    pub profile: LoginProfile,
    pub address: Seq<char>,
    pub username: Seq<char>,
    pub password: Option<Seq<char>>,
    pub private_key: Option<Seq<char>>,
    pub phase: LoginPhase,
}

impl LoginView {
    /// The login in another phase.
    pub open spec fn at(self, phase: LoginPhase) -> LoginView {
        LoginView { phase, ..self }
    }

    /// The end of the login with a failure.
    pub open spec fn fail(self, kind: ErrorKind, message: Seq<char>) -> (LoginView, LoginActionView) {
        (
            self.at(LoginPhase::Done),
            LoginActionView::Finish(Err(SessionErrorView { kind, message })),
        )
    }

    /// The action to connect.
    pub open spec fn dial(self) -> (LoginView, LoginActionView) {
        (
            self.at(LoginPhase::Dialling),
            LoginActionView::Dial {
                address: self.address,
                timeout_secs: self.profile.connect_timeout(),
            },
        )
    }

    /// The start of a login to `host` and `port`.
    pub open spec fn start(
        profile: LoginProfile,
        host: Seq<char>,
        port: u16,
        username: Seq<char>,
        password: Option<Seq<char>>,
        private_key: Option<Seq<char>>,
    ) -> (LoginView, LoginActionView) {
        let login = LoginView {
            profile,
            address: address_text(host, port as int),
            username,
            password,
            private_key,
            phase: LoginPhase::Resolving,
        };
        if profile.parses_address() {
            (login, LoginActionView::ParseAddress { address: login.address })
        } else {
            login.dial()
        }
    }

    /// The authentication, or the failure for want of a credential.
    pub open spec fn authenticate(self) -> (LoginView, LoginActionView) {
        match self.profile.method(self.password, self.private_key) {
            Some(method) => (
                self.at(LoginPhase::Authenticating),
                LoginActionView::Authenticate { username: self.username, method },
            ),
            None => self.fail(ErrorKind::Auth, self.profile.no_credential()),
        }
    }

    /// The login after `event`, and the action it asks for.
    pub open spec fn step(self, event: LoginEventView) -> (LoginView, LoginActionView) {
        match self.phase {
            LoginPhase::Resolving => match event {
                LoginEventView::Failed(reason) => self.fail(
                    ErrorKind::Network,
                    self.profile.address_prefix() + reason,
                ),
                _ => self.dial(),
            },
            LoginPhase::Dialling => match event {
                LoginEventView::Failed(reason) => self.fail(
                    ErrorKind::Network,
                    self.profile.dial_prefix() + reason,
                ),
                _ => (
                    self.at(LoginPhase::Handshaking),
                    LoginActionView::Handshake { timeout_ms: self.profile.session_timeout() },
                ),
            },
            LoginPhase::Handshaking => match event {
                LoginEventView::Failed(reason) => self.fail(
                    ErrorKind::Network,
                    self.profile.handshake_prefix() + reason,
                ),
                _ => self.authenticate(),
            },
            LoginPhase::Authenticating => match event {
                LoginEventView::Failed(reason) => self.fail(
                    ErrorKind::Auth,
                    self.profile.auth_prefix() + reason,
                ),
                _ => if self.profile is Probe {
                    (self.at(LoginPhase::Confirming), LoginActionView::ConfirmAuthenticated)
                } else {
                    (self.at(LoginPhase::Done), LoginActionView::Finish(Ok(())))
                },
            },
            LoginPhase::Confirming => match event {
                LoginEventView::Failed(_) => self.fail(ErrorKind::Auth, "Authentication failed"@),
                _ => (self.at(LoginPhase::Done), LoginActionView::Finish(Ok(()))),
            },
            LoginPhase::Done => (self, LoginActionView::Stop),
        }
    }
}

/// The decisions of one login.
pub struct Login {
    profile: LoginProfile,
    address: String,
    username: String,
    password: Option<String>,
    private_key: Option<String>,
    phase: LoginPhase,
}

impl View for Login {
    type V = LoginView;

    closed spec fn view(&self) -> LoginView {
        LoginView {
            profile: self.profile,
            address: self.address@,
            username: self.username@,
            password: opt_text(self.password),
            private_key: opt_text(self.private_key),
            phase: self.phase,
        }
    }
}

/// The message that a successful probe shows.
pub open spec fn probe_success() -> Seq<char> {
    "Connection successful!"@
}

/// The message that a successful probe shows.
pub fn probe_success_message() -> (message: String)
    ensures
        message@ == probe_success(),
{
    String::from_str("Connection successful!")
}

impl Login {
    /// A login to `host` and `port` with the given credentials, and its
    /// first action.
    pub fn begin(
        profile: LoginProfile,
        host: &str,
        port: u16,
        username: String,
        password: Option<String>,
        private_key: Option<String>,
    ) -> (r: (Login, LoginAction))
        ensures
            (r.0@, r.1@) == LoginView::start(
                profile,
                host@,
                port,
                username@,
                opt_text(password),
                opt_text(private_key),
            ),
    {
        let address = socket_address(host, port as i64);
        let mut login = Login {
            profile,
            address,
            username,
            password,
            private_key,
            phase: LoginPhase::Resolving,
        };
        match profile {
            LoginProfile::Plain => {
                let action = login.dial();
                (login, action)
            },
            _ => {
                let action = LoginAction::ParseAddress { address: login.address.clone() };
                (login, action)
            },
        }
    }

    /// A login to the endpoint of a registered session.
    pub fn to_endpoint(profile: LoginProfile, endpoint: &Endpoint) -> (r: (Login, LoginAction))
        ensures
            (r.0@, r.1@) == LoginView::start(
                profile,
                endpoint@.host,
                endpoint@.port,
                endpoint@.username,
                endpoint@.password,
                endpoint@.private_key,
            ),
    {
        Login::begin(
            profile,
            endpoint.host.as_str(),
            endpoint.port,
            endpoint.username.clone(),
            clone_opt_text(&endpoint.password),
            clone_opt_text(&endpoint.private_key),
        )
    }

    /// What the login has asked for last.
    pub fn phase(&self) -> (phase: LoginPhase)
        ensures
            phase == self@.phase,
    {
        self.phase
    }

    /// Whether the login has ended.
    pub fn is_done(&self) -> (done: bool)
        ensures
            done == (self@.phase is Done),
    {
        match self.phase {
            LoginPhase::Done => true,
            _ => false,
        }
    }

    fn connect_timeout(&self) -> (limit: Option<u64>)
        ensures
            limit == self@.profile.connect_timeout(),
    {
        match self.profile {
            LoginProfile::Plain => None,
            _ => Some(CONNECT_TIMEOUT_SECS),
        }
    }

    fn session_timeout(&self) -> (limit: Option<u32>)
        ensures
            limit == self@.profile.session_timeout(),
    {
        match self.profile {
            LoginProfile::Monitor => Some(SESSION_TIMEOUT_MS),
            _ => None,
        }
    }

    fn dial(&mut self) -> (action: LoginAction)
        ensures
            (final(self)@, action@) == old(self)@.dial(),
    {
        self.phase = LoginPhase::Dialling;
        LoginAction::Dial { address: self.address.clone(), timeout_secs: self.connect_timeout() }
    }

    fn fail(&mut self, kind: ErrorKind, prefix: &str, reason: &str) -> (action: LoginAction)
        ensures
            (final(self)@, action@) == old(self)@.fail(kind, prefix@ + reason@),
    {
        self.phase = LoginPhase::Done;
        LoginAction::Finish(Err(SessionError::with_detail(kind, prefix, reason)))
    }

    fn authenticate(&mut self) -> (action: LoginAction)
        ensures
            (final(self)@, action@) == old(self)@.authenticate(),
    {
        proof {
            reveal_strlit("");
        }
        assert("Password is required for testing"@ + ""@ =~= "Password is required for testing"@);
        assert("No authentication method provided"@ + ""@ =~= "No authentication method provided"@);
        let method = match self.profile {
            LoginProfile::Probe => select_auth(&self.password, &None),
            _ => select_auth(&self.password, &self.private_key),
        };
        match method {
            Some(method) => {
                self.phase = LoginPhase::Authenticating;
                LoginAction::Authenticate { username: self.username.clone(), method }
            },
            None => match self.profile {
                LoginProfile::Probe => self.fail(
                    ErrorKind::Auth,
                    "Password is required for testing",
                    "",
                ),
                _ => self.fail(ErrorKind::Auth, "No authentication method provided", ""),
            },
        }
    }

    /// Takes what the last action brought and names the next action.
    pub fn step(&mut self, event: LoginEvent) -> (action: LoginAction)
        ensures
            (final(self)@, action@) == old(self)@.step(event@),
    {
        proof {
            reveal_strlit("");
        }
        match self.phase {
            LoginPhase::Resolving => match event {
                LoginEvent::Failed(reason) => self.fail(
                    ErrorKind::Network,
                    "Invalid address: ",
                    reason.as_str(),
                ),
                _ => self.dial(),
            },
            LoginPhase::Dialling => match event {
                LoginEvent::Failed(reason) => {
                    assert(""@ + reason@ =~= reason@);
                    assert(Seq::<char>::empty() + reason@ =~= reason@);
                    match self.profile {
                        LoginProfile::Plain => self.fail(ErrorKind::Network, "", reason.as_str()),
                        LoginProfile::Monitor => self.fail(
                            ErrorKind::Network,
                            "TCP connection failed: ",
                            reason.as_str(),
                        ),
                        LoginProfile::Probe => self.fail(
                            ErrorKind::Network,
                            "Connection failed: ",
                            reason.as_str(),
                        ),
                    }
                },
                _ => {
                    self.phase = LoginPhase::Handshaking;
                    LoginAction::Handshake { timeout_ms: self.session_timeout() }
                },
            },
            LoginPhase::Handshaking => match event {
                LoginEvent::Failed(reason) => {
                    assert(""@ + reason@ =~= reason@);
                    assert(Seq::<char>::empty() + reason@ =~= reason@);
                    match self.profile {
                        LoginProfile::Plain => self.fail(ErrorKind::Network, "", reason.as_str()),
                        _ => self.fail(
                            ErrorKind::Network,
                            "SSH handshake failed: ",
                            reason.as_str(),
                        ),
                    }
                },
                _ => self.authenticate(),
            },
            LoginPhase::Authenticating => match event {
                LoginEvent::Failed(reason) => {
                    assert(""@ + reason@ =~= reason@);
                    assert(Seq::<char>::empty() + reason@ =~= reason@);
                    match self.profile {
                        LoginProfile::Probe => self.fail(
                            ErrorKind::Auth,
                            "Authentication failed: ",
                            reason.as_str(),
                        ),
                        _ => self.fail(ErrorKind::Auth, "", reason.as_str()),
                    }
                },
                _ => match self.profile {
                    LoginProfile::Probe => {
                        self.phase = LoginPhase::Confirming;
                        LoginAction::ConfirmAuthenticated
                    },
                    _ => {
                        self.phase = LoginPhase::Done;
                        LoginAction::Finish(Ok(()))
                    },
                },
            },
            LoginPhase::Confirming => match event {
                LoginEvent::Failed(_) => {
                    assert("Authentication failed"@ + ""@ =~= "Authentication failed"@);
                    self.fail(ErrorKind::Auth, "Authentication failed", "")
                },
                _ => {
                    self.phase = LoginPhase::Done;
                    LoginAction::Finish(Ok(()))
                },
            },
            LoginPhase::Done => LoginAction::Stop,
        }
    }
}

/// A login tries the password where one is given, else the agent where a
/// key is named; with neither it fails for want of a credential, and only
/// after the handshake went through.
pub proof fn lemma_login_credential_order(
    login: LoginView,
    password: Option<Seq<char>>,
    private_key: Option<Seq<char>>,
)
    requires
        login.phase is Handshaking,
        login.password == password,
        login.private_key == private_key,
        !(login.profile is Probe),
    ensures
        ({
            let (next, action) = login.step(LoginEventView::Tick);
            &&& password matches Some(p) ==> action == (LoginActionView::Authenticate {
                username: login.username,
                method: AuthMethodView::Password(p),
            })
            &&& password is None && private_key is Some ==> action
                == (LoginActionView::Authenticate {
                username: login.username,
                method: AuthMethodView::Agent,
            })
            &&& password is None && private_key is None ==> action == LoginActionView::Finish(
                Err(
                    SessionErrorView {
                        kind: ErrorKind::Auth,
                        message: "No authentication method provided"@,
                    },
                ),
            ) && next.phase is Done
        }),
{
}

} // verus!
