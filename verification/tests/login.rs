use nebula_ssh::login::probe_success_message;
use nebula_ssh::login::Login;
use nebula_ssh::login::LoginAction;
use nebula_ssh::login::LoginEvent;
use nebula_ssh::login::LoginPhase;
use nebula_ssh::login::LoginProfile;
use nebula_ssh::session::select_auth;
use nebula_ssh::session::AuthMethod;
use nebula_ssh::session::ErrorKind;
use nebula_ssh::session::SessionError;
use nebula_ssh::ssh::SshConnection;
use nebula_ssh::ssh::SshState;
use nebula_ssh::ssh::Endpoint;
use nebula_ssh::ssh_test::test_ssh_connection;
use nebula_ssh::ssh_utils::get_remote_home_directory;
use nebula_ssh::ssh_utils::home_command;
use nebula_ssh::ssh_utils::home_directory_from;

fn failure(kind: ErrorKind, message: &str) -> LoginAction {
    LoginAction::Finish(Err(SessionError { kind, message: message.to_string() }))
}

fn failed(reason: &str) -> LoginEvent {
    LoginEvent::Failed(reason.to_string())
}

fn begin(profile: LoginProfile, password: Option<&str>, key: Option<&str>) -> (Login, LoginAction) {
    Login::begin(
        profile,
        "10.0.0.5",
        22,
        "alice".to_string(),
        password.map(|p| p.to_string()),
        key.map(|k| k.to_string()),
    )
}

#[test]
fn the_password_comes_before_the_agent() {
    assert_eq!(
        select_auth(&Some("pw".to_string()), &Some("key".to_string())),
        Some(AuthMethod::Password("pw".to_string()))
    );
    assert_eq!(select_auth(&Some("pw".to_string()), &None), Some(AuthMethod::Password("pw".to_string())));
    assert_eq!(select_auth(&None, &Some("key".to_string())), Some(AuthMethod::Agent));
    assert_eq!(select_auth(&None, &None), None);
}

#[test]
fn a_plain_login_dials_shakes_hands_and_authenticates() {
    let (mut login, first) = begin(LoginProfile::Plain, None, Some("key"));
    assert_eq!(first, LoginAction::Dial { address: "10.0.0.5:22".to_string(), timeout_secs: None });
    assert_eq!(login.step(LoginEvent::Tick), LoginAction::Handshake { timeout_ms: None });
    assert_eq!(
        login.step(LoginEvent::Tick),
        LoginAction::Authenticate { username: "alice".to_string(), method: AuthMethod::Agent }
    );
    assert_eq!(login.step(LoginEvent::Tick), LoginAction::Finish(Ok(())));
    assert!(login.is_done());
    assert_eq!(login.step(LoginEvent::Tick), LoginAction::Stop);
}

#[test]
fn a_plain_login_reports_failures_as_they_come() {
    let (mut login, _) = begin(LoginProfile::Plain, Some("pw"), None);
    assert_eq!(login.step(failed("refused")), failure(ErrorKind::Network, "refused"));
    let (mut login, _) = begin(LoginProfile::Plain, Some("pw"), None);
    login.step(LoginEvent::Tick);
    assert_eq!(login.step(failed("bad banner")), failure(ErrorKind::Network, "bad banner"));
    let (mut login, _) = begin(LoginProfile::Plain, Some("pw"), None);
    login.step(LoginEvent::Tick);
    login.step(LoginEvent::Tick);
    assert_eq!(login.step(failed("denied")), failure(ErrorKind::Auth, "denied"));
    let (mut login, _) = begin(LoginProfile::Plain, None, None);
    login.step(LoginEvent::Tick);
    assert_eq!(
        login.step(LoginEvent::Tick),
        failure(ErrorKind::Auth, "No authentication method provided")
    );
    assert_eq!(login.phase(), LoginPhase::Done);
}

#[test]
fn a_monitor_login_has_time_limits_and_its_own_messages() {
    let (mut login, first) = begin(LoginProfile::Monitor, Some("pw"), None);
    assert_eq!(first, LoginAction::ParseAddress { address: "10.0.0.5:22".to_string() });
    assert_eq!(
        login.step(LoginEvent::Tick),
        LoginAction::Dial { address: "10.0.0.5:22".to_string(), timeout_secs: Some(5) }
    );
    assert_eq!(login.step(LoginEvent::Tick), LoginAction::Handshake { timeout_ms: Some(5000) });
    assert_eq!(
        login.step(LoginEvent::Tick),
        LoginAction::Authenticate {
            username: "alice".to_string(),
            method: AuthMethod::Password("pw".to_string()),
        }
    );
    assert_eq!(login.step(LoginEvent::Tick), LoginAction::Finish(Ok(())));

    let (mut login, _) = begin(LoginProfile::Monitor, Some("pw"), None);
    assert_eq!(
        login.step(failed("invalid socket address syntax")),
        failure(ErrorKind::Network, "Invalid address: invalid socket address syntax")
    );
    let (mut login, _) = begin(LoginProfile::Monitor, Some("pw"), None);
    login.step(LoginEvent::Tick);
    assert_eq!(
        login.step(failed("timed out")),
        failure(ErrorKind::Network, "TCP connection failed: timed out")
    );
    let (mut login, _) = begin(LoginProfile::Monitor, Some("pw"), None);
    login.step(LoginEvent::Tick);
    login.step(LoginEvent::Tick);
    assert_eq!(
        login.step(failed("eof")),
        failure(ErrorKind::Network, "SSH handshake failed: eof")
    );
    let (mut login, _) = begin(LoginProfile::Monitor, Some("pw"), None);
    login.step(LoginEvent::Tick);
    login.step(LoginEvent::Tick);
    login.step(LoginEvent::Tick);
    assert_eq!(login.step(failed("denied")), failure(ErrorKind::Auth, "denied"));
}

#[test]
fn a_probe_needs_a_password_and_confirms_at_the_end() {
    let (mut login, first) = test_ssh_connection(
        "10.0.0.5".to_string(),
        2222,
        "alice".to_string(),
        Some("pw".to_string()),
    );
    assert_eq!(first, LoginAction::ParseAddress { address: "10.0.0.5:2222".to_string() });
    assert_eq!(
        login.step(LoginEvent::Tick),
        LoginAction::Dial { address: "10.0.0.5:2222".to_string(), timeout_secs: Some(5) }
    );
    assert_eq!(login.step(LoginEvent::Tick), LoginAction::Handshake { timeout_ms: None });
    assert_eq!(
        login.step(LoginEvent::Tick),
        LoginAction::Authenticate {
            username: "alice".to_string(),
            method: AuthMethod::Password("pw".to_string()),
        }
    );
    assert_eq!(login.step(LoginEvent::Tick), LoginAction::ConfirmAuthenticated);
    assert_eq!(login.step(LoginEvent::Tick), LoginAction::Finish(Ok(())));
    assert_eq!(probe_success_message(), "Connection successful!");

    let (mut login, _) =
        test_ssh_connection("10.0.0.5".to_string(), 22, "alice".to_string(), None);
    login.step(LoginEvent::Tick);
    login.step(LoginEvent::Tick);
    assert_eq!(
        login.step(LoginEvent::Tick),
        failure(ErrorKind::Auth, "Password is required for testing")
    );

    let (mut login, _) = begin(LoginProfile::Probe, Some("pw"), None);
    login.step(LoginEvent::Tick);
    assert_eq!(login.step(failed("refused")), failure(ErrorKind::Network, "Connection failed: refused"));

    let (mut login, _) = begin(LoginProfile::Probe, Some("pw"), None);
    login.step(LoginEvent::Tick);
    login.step(LoginEvent::Tick);
    login.step(LoginEvent::Tick);
    assert_eq!(
        login.step(failed("denied")),
        failure(ErrorKind::Auth, "Authentication failed: denied")
    );

    let (mut login, _) = begin(LoginProfile::Probe, Some("pw"), None);
    login.step(LoginEvent::Tick);
    login.step(LoginEvent::Tick);
    login.step(LoginEvent::Tick);
    login.step(LoginEvent::Tick);
    assert_eq!(login.step(failed("")), failure(ErrorKind::Auth, "Authentication failed"));
}

#[test]
fn the_home_directory_is_the_trimmed_output_or_the_root() {
    assert_eq!(home_command(), "echo $HOME");
    assert_eq!(home_directory_from("/home/alice\n"), "/home/alice");
    assert_eq!(home_directory_from("  /root \r\n"), "/root");
    assert_eq!(home_directory_from(""), "/");
    assert_eq!(home_directory_from("\n"), "/");
    assert_eq!(home_directory_from("C:\\Users\\alice\n"), "/");
    assert_eq!(home_directory_from("home/alice"), "/");
    assert_eq!(home_directory_from("/"), "/");
    assert_eq!(home_directory_from("/home/a b\n"), "/home/a b");
}

#[test]
fn the_home_directory_query_needs_a_registered_session() {
    let mut ssh: SshState<u32> = SshState::new();
    match get_remote_home_directory(&ssh, "a".to_string()) {
        Err(e) => {
            assert_eq!(e.kind, ErrorKind::NotFound);
            assert_eq!(e.message, "SSH session not found");
        },
        Ok(_) => panic!("expected a failure"),
    }
    ssh.register(
        "a".to_string(),
        SshConnection::new(
            Endpoint {
                host: "h".to_string(),
                port: 22,
                username: "u".to_string(),
                password: Some("p".to_string()),
                private_key: None,
                jump_host_id: None,
            },
            None,
            None,
        ),
    );
    match get_remote_home_directory(&ssh, "a".to_string()) {
        Ok((_, first)) => {
            assert_eq!(first, LoginAction::Dial { address: "h:22".to_string(), timeout_secs: None })
        },
        Err(_) => panic!("expected a login"),
    }
}
