use nebula_ssh::local_term::LocalConnectAction;
use nebula_ssh::local_term::LocalSession;
use nebula_ssh::local_term::LocalState;
use nebula_ssh::connect::ConnectAction;
use nebula_ssh::connect::Link;
use nebula_ssh::session::ErrorKind;
use nebula_ssh::session::TerminalSize;
use nebula_ssh::ssh::disconnect_ssh;
use nebula_ssh::ssh::duplicate_session;
use nebula_ssh::ssh::read_remote_file;
use nebula_ssh::ssh::resize_ssh;
use nebula_ssh::ssh::take_resize;
use nebula_ssh::ssh::take_write;
use nebula_ssh::ssh::write_remote_file;
use nebula_ssh::ssh::write_ssh;
use nebula_ssh::ssh::Duplicate;
use nebula_ssh::ssh::Endpoint;
use nebula_ssh::ssh::FileRequest;
use nebula_ssh::ssh::SshConnection;
use nebula_ssh::ssh::SshState;

fn endpoint(host: &str, password: Option<&str>, key: Option<&str>, jump: Option<i64>) -> Endpoint {
    Endpoint {
        host: host.to_string(),
        port: 22,
        username: "alice".to_string(),
        password: password.map(|p| p.to_string()),
        private_key: key.map(|k| k.to_string()),
        jump_host_id: jump,
    }
}

fn state_with(id: &str, sftp: Option<u32>) -> SshState<u32> {
    let mut state: SshState<u32> = SshState::new();
    let replaced = state.register(
        id.to_string(),
        SshConnection::new(endpoint("example.org", Some("secret"), None, None), Some(1), sftp),
    );
    assert!(replaced.is_none());
    state
}

#[test]
fn commands_on_an_unknown_session_succeed_and_change_nothing() {
    let mut state = state_with("a", Some(7));
    assert_eq!(write_ssh(&mut state, "ghost".to_string(), "ls\n".to_string()), Ok(()));
    assert_eq!(resize_ssh(&mut state, "ghost".to_string(), 100, 40), Ok(()));
    assert_eq!(disconnect_ssh(&mut state, "ghost".to_string()), Ok(()));
    assert_eq!(state.len(), 1);
    assert!(state.contains("a"));
    assert!(!state.contains("ghost"));
    assert_eq!(state.get("a").unwrap().pending_writes(), 0);
    assert_eq!(state.get("a").unwrap().pending_resizes(), 0);
    assert_eq!(take_write(&mut state, "ghost"), None);
    assert_eq!(take_resize(&mut state, "ghost"), None);

    let mut empty: SshState<u32> = SshState::new();
    assert_eq!(write_ssh(&mut empty, "x".to_string(), "data".to_string()), Ok(()));
    assert_eq!(resize_ssh(&mut empty, "x".to_string(), 1, 1), Ok(()));
    assert_eq!(disconnect_ssh(&mut empty, "x".to_string()), Ok(()));
    assert_eq!(empty.len(), 0);
}

#[test]
fn writes_arrive_in_the_order_they_were_made() {
    let mut state = state_with("a", None);
    write_ssh(&mut state, "a".to_string(), "first".to_string()).unwrap();
    write_ssh(&mut state, "a".to_string(), "second".to_string()).unwrap();
    write_ssh(&mut state, "a".to_string(), "third".to_string()).unwrap();
    assert_eq!(state.get("a").unwrap().pending_writes(), 3);
    assert_eq!(take_write(&mut state, "a"), Some(b"first".to_vec()));
    assert_eq!(take_write(&mut state, "a"), Some(b"second".to_vec()));
    write_ssh(&mut state, "a".to_string(), "fourth".to_string()).unwrap();
    assert_eq!(take_write(&mut state, "a"), Some(b"third".to_vec()));
    assert_eq!(take_write(&mut state, "a"), Some(b"fourth".to_vec()));
    assert_eq!(take_write(&mut state, "a"), None);
    assert_eq!(state.len(), 1);
}

#[test]
fn written_text_is_queued_as_its_utf8_bytes() {
    let mut state = state_with("a", None);
    write_ssh(&mut state, "a".to_string(), "h\u{e9}\u{20ac}".to_string()).unwrap();
    assert_eq!(take_write(&mut state, "a"), Some(vec![0x68, 0xc3, 0xa9, 0xe2, 0x82, 0xac]));
    write_ssh(&mut state, "a".to_string(), String::new()).unwrap();
    assert_eq!(take_write(&mut state, "a"), Some(Vec::new()));
}

#[test]
fn resizes_arrive_in_the_order_they_were_made() {
    let mut state = state_with("a", None);
    resize_ssh(&mut state, "a".to_string(), 80, 24).unwrap();
    resize_ssh(&mut state, "a".to_string(), 120, 50).unwrap();
    assert_eq!(take_resize(&mut state, "a"), Some(TerminalSize { cols: 80, rows: 24 }));
    assert_eq!(take_resize(&mut state, "a"), Some(TerminalSize { cols: 120, rows: 50 }));
    assert_eq!(take_resize(&mut state, "a"), None);
}

#[test]
fn queues_of_different_sessions_do_not_mix() {
    let mut state = state_with("a", None);
    state.register(
        "b".to_string(),
        SshConnection::new(endpoint("other.org", None, Some("key"), None), None, None),
    );
    write_ssh(&mut state, "a".to_string(), "for a".to_string()).unwrap();
    write_ssh(&mut state, "b".to_string(), "for b".to_string()).unwrap();
    assert_eq!(take_write(&mut state, "b"), Some(b"for b".to_vec()));
    assert_eq!(take_write(&mut state, "b"), None);
    assert_eq!(take_write(&mut state, "a"), Some(b"for a".to_vec()));
    let mut ids = state.ids();
    ids.sort();
    assert_eq!(ids, vec!["a".to_string(), "b".to_string()]);
}

#[test]
fn disconnect_removes_the_session_and_may_be_repeated() {
    let mut state = state_with("a", Some(9));
    write_ssh(&mut state, "a".to_string(), "pending".to_string()).unwrap();
    assert_eq!(disconnect_ssh(&mut state, "a".to_string()), Ok(()));
    assert!(!state.contains("a"));
    assert_eq!(state.len(), 0);
    assert_eq!(disconnect_ssh(&mut state, "a".to_string()), Ok(()));
    assert_eq!(state.len(), 0);
    assert_eq!(take_write(&mut state, "a"), None);
}

#[test]
fn registering_twice_keeps_one_entry_and_the_last_session() {
    let mut state = state_with("a", Some(1));
    let replaced = state.register(
        "a".to_string(),
        SshConnection::new(endpoint("second.org", None, None, None), None, Some(2)),
    );
    assert!(replaced.is_some());
    assert_eq!(replaced.unwrap().endpoint().host, "example.org");
    assert_eq!(state.len(), 1);
    assert_eq!(state.get("a").unwrap().endpoint().host, "second.org");
    assert_eq!(state.get("a").unwrap().sftp_session(), Some(&2));
    assert_eq!(state.get("a").unwrap().session(), None);
}

#[test]
fn file_operations_go_to_the_side_channel() {
    let state = state_with("a", Some(77));
    match read_remote_file(&state, "a".to_string(), "/etc/hosts".to_string()) {
        Ok(FileRequest::Read { channel, path }) => {
            assert_eq!(*channel, 77);
            assert_eq!(path, "/etc/hosts");
        },
        _ => panic!("expected a read request"),
    }
    match write_remote_file(&state, "a".to_string(), "/tmp/x".to_string(), "h\u{e9}".to_string()) {
        Ok(FileRequest::Write { channel, path, content }) => {
            assert_eq!(*channel, 77);
            assert_eq!(path, "/tmp/x");
            assert_eq!(content, vec![0x68, 0xc3, 0xa9]);
        },
        _ => panic!("expected a write request"),
    }
}

#[test]
fn file_operations_fail_without_session_or_side_channel() {
    let state = state_with("a", None);
    for id in ["a", "ghost"] {
        match read_remote_file(&state, id.to_string(), "/x".to_string()) {
            Err(e) => {
                assert_eq!(e.kind, ErrorKind::NotFound);
                assert_eq!(e.message, "Session not found or SFTP unavailable");
                assert_eq!(e.to_string(), "Session not found or SFTP unavailable");
            },
            Ok(_) => panic!("expected a failure"),
        }
        match write_remote_file(&state, id.to_string(), "/x".to_string(), "c".to_string()) {
            Err(e) => {
                assert_eq!(e.kind, ErrorKind::NotFound);
                assert_eq!(e.message, "Session not found or SFTP unavailable");
            },
            Ok(_) => panic!("expected a failure"),
        }
    }
}

#[test]
fn duplicate_of_an_unknown_source_fails_and_registers_nothing() {
    let state = state_with("a", None);
    let mut local: LocalState<u32> = LocalState::new();
    local.register("l".to_string(), LocalSession::new(Some(5)));
    match duplicate_session(&state, &local, "ghost".to_string(), "copy".to_string()) {
        Err(e) => {
            assert_eq!(e.kind, ErrorKind::NotFound);
            assert_eq!(e.message, "Source session not found");
        },
        Ok(_) => panic!("expected a failure"),
    }
    assert!(!state.contains("copy"));
    assert!(!local.contains("copy"));
    assert_eq!(state.len(), 1);
    assert_eq!(local.len(), 1);
}

#[test]
fn duplicate_of_a_remote_session_connects_to_the_same_endpoint() {
    let mut state: SshState<u32> = SshState::new();
    state.register(
        "a".to_string(),
        SshConnection::new(endpoint("example.org", None, Some("key"), None), None, None),
    );
    let local: LocalState<u32> = LocalState::new();
    match duplicate_session(&state, &local, "a".to_string(), "copy".to_string()) {
        Ok(Duplicate::Remote(request, first)) => {
            assert_eq!(request.id(), "copy");
            assert_eq!(
                first,
                ConnectAction::Dial { link: Link::Main, address: "example.org:22".to_string() }
            );
        },
        _ => panic!("expected a remote duplicate"),
    }
    assert_eq!(state.len(), 1);

    state.register(
        "j".to_string(),
        SshConnection::new(endpoint("inner.org", Some("pw"), None, Some(12)), None, None),
    );
    match duplicate_session(&state, &local, "j".to_string(), "copy".to_string()) {
        Ok(Duplicate::Remote(_, first)) => {
            assert_eq!(first, ConnectAction::LookupJumpHost { id: 12 });
        },
        _ => panic!("expected a remote duplicate"),
    }
    match duplicate_session(&state, &local, "j".to_string(), "a".to_string()) {
        Ok(Duplicate::Remote(request, first)) => {
            assert_eq!(first, ConnectAction::Finish(Ok(())));
            assert!(request.is_done());
        },
        _ => panic!("expected a remote duplicate"),
    }
}

#[test]
fn duplicate_of_a_local_session_opens_a_default_terminal() {
    let state: SshState<u32> = SshState::new();
    let mut local: LocalState<u32> = LocalState::new();
    local.register("l".to_string(), LocalSession::new(Some(5)));
    match duplicate_session(&state, &local, "l".to_string(), "copy".to_string()) {
        Ok(Duplicate::Local(opening, first)) => {
            assert_eq!(opening.id(), "copy");
            assert_eq!(
                first,
                LocalConnectAction::OpenPty { size: TerminalSize { cols: 80, rows: 24 } }
            );
        },
        _ => panic!("expected a local duplicate"),
    }
    assert_eq!(local.len(), 1);
}
