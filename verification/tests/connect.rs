use nebula_ssh::connect::ConnectAction;
use nebula_ssh::connect::ConnectEvent;
use nebula_ssh::connect::ConnectPhase;
use nebula_ssh::connect::JumpHost;
use nebula_ssh::connect::Link;
use nebula_ssh::connect::SshConnect;
use nebula_ssh::models::PortForwardingRule;
use nebula_ssh::models::Server;
use nebula_ssh::relay::RelayTarget;
use nebula_ssh::session::AuthMethod;
use nebula_ssh::session::ErrorKind;
use nebula_ssh::session::SessionError;
use nebula_ssh::session::TerminalSize;
use nebula_ssh::ssh::connect_ssh;
use nebula_ssh::ssh::write_ssh;
use nebula_ssh::ssh::SshState;

fn begin(
    state: &SshState<u32>,
    id: &str,
    password: Option<&str>,
    key: Option<&str>,
    rules: Option<Vec<PortForwardingRule>>,
    jump: Option<i64>,
) -> (SshConnect, ConnectAction) {
    connect_ssh(
        state,
        id.to_string(),
        "example.org".to_string(),
        2222,
        "alice".to_string(),
        password.map(|p| p.to_string()),
        key.map(|k| k.to_string()),
        rules,
        jump,
    )
}

fn tick() -> ConnectEvent<u32> {
    ConnectEvent::Tick
}

fn failed(reason: &str) -> ConnectEvent<u32> {
    ConnectEvent::Failed(reason.to_string())
}

fn failure(kind: ErrorKind, message: &str) -> ConnectAction {
    ConnectAction::Finish(Err(SessionError { kind, message: message.to_string() }))
}

fn server(password: Option<&str>, key: Option<&str>) -> Server {
    Server {
        id: Some(7),
        name: "bastion".to_string(),
        host: "jump.example.org".to_string(),
        port: 2200,
        username: "gate".to_string(),
        password: password.map(|p| p.to_string()),
        private_key_path: key.map(|k| k.to_string()),
        group: None,
        tags: None,
        color: None,
        created_at: 0,
        updated_at: 0,
        forwarding_rules: None,
        jump_host_id: None,
    }
}

fn rule(kind: &str, source: u16, host: Option<&str>, port: Option<u16>) -> PortForwardingRule {
    PortForwardingRule {
        rule_type: kind.to_string(),
        source_port: source,
        destination_host: host.map(|h| h.to_string()),
        destination_port: port,
    }
}

#[test]
fn a_direct_connect_with_password_runs_through_all_steps() {
    let mut state: SshState<u32> = SshState::new();
    let (mut c, first) = begin(&state, "s1", Some("secret"), Some("key"), None, None);
    assert_eq!(c.id(), "s1");
    assert_eq!(
        first,
        ConnectAction::Dial { link: Link::Main, address: "example.org:2222".to_string() }
    );
    assert_eq!(c.phase(), ConnectPhase::Dial);
    assert_eq!(c.step(&mut state, tick()), ConnectAction::Handshake { link: Link::Main });
    assert_eq!(
        c.step(&mut state, tick()),
        ConnectAction::Authenticate {
            link: Link::Main,
            username: "alice".to_string(),
            method: AuthMethod::Password("secret".to_string()),
        }
    );
    assert_eq!(
        c.step(&mut state, tick()),
        ConnectAction::OpenShell {
            keepalive_secs: 30,
            term: "xterm-256color".to_string(),
            size: TerminalSize { cols: 80, rows: 24 },
        }
    );
    assert_eq!(
        c.step(&mut state, tick()),
        ConnectAction::Dial { link: Link::Side, address: "example.org:2222".to_string() }
    );
    assert_eq!(c.step(&mut state, tick()), ConnectAction::Handshake { link: Link::Side });
    assert_eq!(
        c.step(&mut state, tick()),
        ConnectAction::Authenticate {
            link: Link::Side,
            username: "alice".to_string(),
            method: AuthMethod::Password("secret".to_string()),
        }
    );
    assert_eq!(c.step(&mut state, tick()), ConnectAction::Register);
    assert_eq!(state.len(), 0);
    assert_eq!(
        c.step(&mut state, ConnectEvent::Sessions { session: Some(11), sftp_session: Some(12) }),
        ConnectAction::SpawnWorker
    );
    assert_eq!(state.len(), 1);
    let entry = state.get("s1").unwrap();
    assert_eq!(entry.session(), Some(&11));
    assert_eq!(entry.sftp_session(), Some(&12));
    assert_eq!(entry.endpoint().host, "example.org");
    assert_eq!(entry.endpoint().port, 2222);
    assert_eq!(entry.endpoint().username, "alice");
    assert_eq!(entry.endpoint().password, Some("secret".to_string()));
    assert_eq!(entry.endpoint().private_key, Some("key".to_string()));
    assert_eq!(entry.endpoint().jump_host_id, None);
    assert_eq!(entry.pending_writes(), 0);
    assert_eq!(c.step(&mut state, tick()), ConnectAction::Finish(Ok(())));
    assert!(c.is_done());
    assert_eq!(c.step(&mut state, tick()), ConnectAction::Stop);
    assert_eq!(state.len(), 1);
}

#[test]
fn a_key_without_password_authenticates_both_sessions_by_the_agent() {
    let mut state: SshState<u32> = SshState::new();
    let (mut c, _) = begin(&state, "s1", None, Some("~/.ssh/id"), None, None);
    c.step(&mut state, tick());
    assert_eq!(
        c.step(&mut state, tick()),
        ConnectAction::Authenticate {
            link: Link::Main,
            username: "alice".to_string(),
            method: AuthMethod::Agent,
        }
    );
    c.step(&mut state, tick());
    c.step(&mut state, tick());
    assert_eq!(c.step(&mut state, tick()), ConnectAction::Handshake { link: Link::Side });
    assert_eq!(
        c.step(&mut state, tick()),
        ConnectAction::Authenticate {
            link: Link::Side,
            username: "alice".to_string(),
            method: AuthMethod::Agent,
        }
    );
    assert_eq!(c.phase(), ConnectPhase::SideAuth);
    assert_eq!(state.len(), 0);
    assert_eq!(c.step(&mut state, tick()), ConnectAction::Register);
    assert_eq!(
        c.step(&mut state, ConnectEvent::Sessions { session: Some(11), sftp_session: Some(12) }),
        ConnectAction::SpawnWorker
    );
    assert_eq!(state.get("s1").unwrap().session(), Some(&11));
    assert_eq!(state.get("s1").unwrap().sftp_session(), Some(&12));
    assert_eq!(c.step(&mut state, tick()), ConnectAction::Finish(Ok(())));
}

#[test]
fn a_side_channel_that_the_agent_cannot_authenticate_fails_the_request() {
    let mut state: SshState<u32> = SshState::new();
    let (mut c, _) = begin(&state, "s1", None, Some("~/.ssh/id"), None, None);
    for _ in 0..6 {
        c.step(&mut state, tick());
    }
    assert_eq!(c.phase(), ConnectPhase::SideAuth);
    assert_eq!(
        c.step(&mut state, failed("no identities")),
        failure(ErrorKind::Auth, "SFTP auth failed: no identities")
    );
    assert!(c.is_done());
    assert_eq!(
        c.step(&mut state, ConnectEvent::Sessions { session: Some(1), sftp_session: Some(2) }),
        ConnectAction::Stop
    );
    assert_eq!(state.len(), 0);
}

#[test]
fn no_credential_is_an_authentication_error_after_the_handshake() {
    let mut state: SshState<u32> = SshState::new();
    let (mut c, first) = begin(&state, "s1", None, None, None, None);
    assert_eq!(
        first,
        ConnectAction::Dial { link: Link::Main, address: "example.org:2222".to_string() }
    );
    assert_eq!(c.step(&mut state, tick()), ConnectAction::Handshake { link: Link::Main });
    assert_eq!(
        c.step(&mut state, tick()),
        failure(ErrorKind::Auth, "No authentication method provided")
    );
    assert!(c.is_done());
    assert_eq!(c.step(&mut state, tick()), ConnectAction::Stop);
    assert_eq!(state.len(), 0);
}

#[test]
fn each_failure_ends_the_request_with_its_class_and_message() {
    let steps_before: [(usize, ErrorKind, &str); 7] = [
        (0, ErrorKind::Network, "boom"),
        (1, ErrorKind::Network, "boom"),
        (2, ErrorKind::Auth, "boom"),
        (3, ErrorKind::Transport, "boom"),
        (4, ErrorKind::Network, "Failed to create SFTP connection: boom"),
        (5, ErrorKind::Network, "SFTP handshake failed: boom"),
        (6, ErrorKind::Auth, "SFTP auth failed: boom"),
    ];
    for (successes, kind, message) in steps_before {
        let mut state: SshState<u32> = SshState::new();
        let (mut c, _) = begin(&state, "s1", Some("pw"), None, None, None);
        for _ in 0..successes {
            c.step(&mut state, tick());
        }
        assert_eq!(c.step(&mut state, failed("boom")), failure(kind, message), "{}", successes);
        assert!(c.is_done());
        for _ in 0..5 {
            assert_eq!(
                c.step(&mut state, ConnectEvent::Sessions { session: Some(1), sftp_session: None }),
                ConnectAction::Stop
            );
        }
        assert_eq!(state.len(), 0);
        assert!(!state.contains("s1"));
    }
}

#[test]
fn a_jump_host_is_dialled_first_and_the_target_through_its_relay() {
    let mut state: SshState<u32> = SshState::new();
    let (mut c, first) = begin(&state, "s1", Some("pw"), None, None, Some(7));
    assert_eq!(first, ConnectAction::LookupJumpHost { id: 7 });
    assert_eq!(
        c.step(&mut state, ConnectEvent::JumpHost(Some(server(None, Some("id_rsa"))))),
        ConnectAction::Dial { link: Link::Jump, address: "jump.example.org:2200".to_string() }
    );
    assert_eq!(c.step(&mut state, tick()), ConnectAction::Handshake { link: Link::Jump });
    assert_eq!(
        c.step(&mut state, tick()),
        ConnectAction::Authenticate {
            link: Link::Jump,
            username: "gate".to_string(),
            method: AuthMethod::Agent,
        }
    );
    assert_eq!(
        c.step(&mut state, tick()),
        ConnectAction::BindRelay {
            target: RelayTarget {
                source_port: 0,
                destination_host: "example.org".to_string(),
                destination_port: 2222,
            },
        }
    );
    assert_eq!(
        c.step(&mut state, ConnectEvent::Bound(40123)),
        ConnectAction::Dial { link: Link::Main, address: "127.0.0.1:40123".to_string() }
    );
    assert_eq!(c.step(&mut state, tick()), ConnectAction::Handshake { link: Link::Main });
    assert_eq!(
        c.step(&mut state, tick()),
        ConnectAction::Authenticate {
            link: Link::Main,
            username: "alice".to_string(),
            method: AuthMethod::Password("pw".to_string()),
        }
    );
    c.step(&mut state, tick());
    assert_eq!(
        c.step(&mut state, tick()),
        ConnectAction::Dial { link: Link::Side, address: "example.org:2222".to_string() }
    );
    c.step(&mut state, tick());
    c.step(&mut state, tick());
    assert_eq!(c.step(&mut state, tick()), ConnectAction::Register);
    c.step(&mut state, ConnectEvent::Sessions { session: Some(1), sftp_session: Some(2) });
    assert_eq!(state.get("s1").unwrap().endpoint().jump_host_id, Some(7));
}

#[test]
fn jump_host_failures_have_their_own_messages() {
    let mut state: SshState<u32> = SshState::new();

    let (mut c, _) = begin(&state, "s", Some("pw"), None, None, Some(7));
    assert_eq!(
        c.step(&mut state, ConnectEvent::JumpHost(None)),
        failure(ErrorKind::NotFound, "Jump host not found")
    );

    let (mut c, _) = begin(&state, "s", Some("pw"), None, None, Some(7));
    assert_eq!(c.step(&mut state, failed("database is locked")), failure(
        ErrorKind::NotFound,
        "database is locked"
    ));

    let (mut c, _) = begin(&state, "s", Some("pw"), None, None, Some(7));
    c.step(&mut state, ConnectEvent::JumpHost(Some(server(Some("jp"), None))));
    assert_eq!(
        c.step(&mut state, failed("refused")),
        failure(ErrorKind::Network, "Failed to connect to jump host: refused")
    );

    let (mut c, _) = begin(&state, "s", Some("pw"), None, None, Some(7));
    c.step(&mut state, ConnectEvent::JumpHost(Some(server(Some("jp"), None))));
    c.step(&mut state, tick());
    assert_eq!(
        c.step(&mut state, failed("bad banner")),
        failure(ErrorKind::Network, "Jump host handshake failed: bad banner")
    );

    let (mut c, _) = begin(&state, "s", Some("pw"), None, None, Some(7));
    c.step(&mut state, ConnectEvent::JumpHost(Some(server(None, None))));
    c.step(&mut state, tick());
    assert_eq!(
        c.step(&mut state, tick()),
        failure(ErrorKind::Auth, "Jump host has no auth method")
    );

    let (mut c, _) = begin(&state, "s", Some("pw"), None, None, Some(7));
    c.step(&mut state, ConnectEvent::JumpHost(Some(server(Some("jp"), Some("k")))));
    c.step(&mut state, tick());
    assert_eq!(
        c.step(&mut state, tick()),
        ConnectAction::Authenticate {
            link: Link::Jump,
            username: "gate".to_string(),
            method: AuthMethod::Password("jp".to_string()),
        }
    );
    assert_eq!(
        c.step(&mut state, failed("denied")),
        failure(ErrorKind::Auth, "Jump host auth failed: denied")
    );

    let (mut c, _) = begin(&state, "s", Some("pw"), None, None, Some(7));
    c.step(&mut state, ConnectEvent::JumpHost(Some(server(Some("jp"), None))));
    c.step(&mut state, tick());
    c.step(&mut state, tick());
    c.step(&mut state, tick());
    assert_eq!(
        c.step(&mut state, failed("address in use")),
        failure(ErrorKind::Network, "address in use")
    );
    assert_eq!(state.len(), 0);
}

#[test]
fn a_second_connect_with_the_same_identifier_does_nothing() {
    let mut state: SshState<u32> = SshState::new();
    let (mut c, _) = begin(&state, "s1", Some("pw"), None, None, None);
    let mut workers = 0;
    let mut event = tick();
    loop {
        match c.step(&mut state, event) {
            ConnectAction::Finish(result) => {
                assert_eq!(result, Ok(()));
                break;
            },
            ConnectAction::SpawnWorker => workers += 1,
            ConnectAction::Stop => panic!("stopped without a result"),
            _ => {},
        }
        event = if c.phase() == ConnectPhase::Registering {
            ConnectEvent::Sessions { session: Some(1), sftp_session: Some(2) }
        } else {
            tick()
        };
    }
    assert_eq!(workers, 1);
    assert_eq!(state.len(), 1);
    write_ssh(&mut state, "s1".to_string(), "queued".to_string()).unwrap();

    let (mut again, first) = begin(&state, "s1", Some("other"), None, None, Some(3));
    assert_eq!(first, ConnectAction::Finish(Ok(())));
    assert!(again.is_done());
    assert_eq!(again.step(&mut state, tick()), ConnectAction::Stop);
    assert_eq!(
        again.step(&mut state, ConnectEvent::Sessions { session: Some(8), sftp_session: Some(9) }),
        ConnectAction::Stop
    );
    assert_eq!(state.len(), 1);
    let entry = state.get("s1").unwrap();
    assert_eq!(entry.session(), Some(&1));
    assert_eq!(entry.endpoint().password, Some("pw".to_string()));
    assert_eq!(entry.pending_writes(), 1);
}

#[test]
fn tunnels_start_after_the_registration_and_before_the_worker() {
    let mut state: SshState<u32> = SshState::new();
    let rules = vec![
        rule("Local", 8080, Some("db"), Some(5432)),
        rule("Remote", 1, None, None),
        rule("Local", 8081, None, None),
    ];
    let (mut c, _) = begin(&state, "s1", None, Some("k"), Some(rules), None);
    for _ in 0..6 {
        c.step(&mut state, tick());
    }
    assert_eq!(c.step(&mut state, tick()), ConnectAction::Register);
    assert_eq!(
        c.step(&mut state, ConnectEvent::Sessions { session: Some(1), sftp_session: Some(2) }),
        ConnectAction::StartTunnel {
            target: RelayTarget {
                source_port: 8080,
                destination_host: "db".to_string(),
                destination_port: 5432,
            },
        }
    );
    assert!(state.contains("s1"));
    assert_eq!(
        c.step(&mut state, tick()),
        ConnectAction::StartTunnel {
            target: RelayTarget {
                source_port: 8081,
                destination_host: "127.0.0.1".to_string(),
                destination_port: 80,
            },
        }
    );
    assert_eq!(c.step(&mut state, tick()), ConnectAction::SpawnWorker);
    assert_eq!(c.step(&mut state, tick()), ConnectAction::Finish(Ok(())));
}

#[test]
fn a_registration_replaces_an_entry_made_in_the_meantime() {
    let mut state: SshState<u32> = SshState::new();
    let (mut first, _) = begin(&state, "s1", Some("a"), None, None, None);
    let (mut second, _) = begin(&state, "s1", Some("b"), None, None, None);
    for _ in 0..7 {
        first.step(&mut state, tick());
        second.step(&mut state, tick());
    }
    first.step(&mut state, ConnectEvent::Sessions { session: Some(1), sftp_session: None });
    second.step(&mut state, ConnectEvent::Sessions { session: Some(2), sftp_session: None });
    assert_eq!(state.len(), 1);
    assert_eq!(state.get("s1").unwrap().session(), Some(&2));
    assert_eq!(state.get("s1").unwrap().endpoint().password, Some("b".to_string()));
}

#[test]
fn a_jump_host_is_read_from_its_server_record() {
    let jump = JumpHost::from_server(&server(Some("p"), Some("k")));
    assert_eq!(
        jump,
        JumpHost {
            host: "jump.example.org".to_string(),
            port: 2200,
            username: "gate".to_string(),
            password: Some("p".to_string()),
            private_key_path: Some("k".to_string()),
        }
    );
}

#[test]
fn a_jump_host_with_a_negative_port_is_dialled_as_written() {
    let mut state: SshState<u32> = SshState::new();
    let (mut c, _) = begin(&state, "s", Some("pw"), None, None, Some(7));
    let mut odd = server(Some("p"), None);
    odd.port = -1;
    assert_eq!(
        c.step(&mut state, ConnectEvent::JumpHost(Some(odd))),
        ConnectAction::Dial { link: Link::Jump, address: "jump.example.org:-1".to_string() }
    );
}
