use nebula_ssh::local_term::connect_local;
use nebula_ssh::local_term::disconnect_local;
use nebula_ssh::local_term::resize_local;
use nebula_ssh::local_term::take_local_resize;
use nebula_ssh::local_term::take_local_write;
use nebula_ssh::local_term::write_local;
use nebula_ssh::local_term::LocalConnectAction;
use nebula_ssh::local_term::LocalConnectEvent;
use nebula_ssh::local_term::LocalConnectPhase;
use nebula_ssh::local_term::LocalSession;
use nebula_ssh::local_term::LocalState;
use nebula_ssh::session::ErrorKind;
use nebula_ssh::session::SessionError;
use nebula_ssh::session::TerminalSize;

fn tick() -> LocalConnectEvent<u32> {
    LocalConnectEvent::Tick
}

#[test]
fn opening_a_local_session_runs_through_all_steps() {
    let mut state: LocalState<u32> = LocalState::new();
    let (mut c, first) = connect_local(&state, "tab".to_string(), 120, 40);
    assert_eq!(first, LocalConnectAction::OpenPty { size: TerminalSize { cols: 120, rows: 40 } });
    assert_eq!(c.phase(), LocalConnectPhase::Opening);
    assert_eq!(
        c.step(&mut state, tick()),
        LocalConnectAction::SpawnShell { term: "xterm-256color".to_string() }
    );
    assert_eq!(c.step(&mut state, tick()), LocalConnectAction::AttachStreams);
    assert_eq!(c.step(&mut state, tick()), LocalConnectAction::SpawnWorker);
    assert_eq!(c.step(&mut state, tick()), LocalConnectAction::Register);
    assert_eq!(state.len(), 0);
    assert_eq!(
        c.step(&mut state, LocalConnectEvent::Child(4242)),
        LocalConnectAction::Finish(Ok(()))
    );
    assert!(c.is_done());
    assert_eq!(state.len(), 1);
    assert_eq!(state.get("tab").unwrap().child(), Some(&4242));
    assert_eq!(c.step(&mut state, tick()), LocalConnectAction::Stop);
    assert_eq!(c.id(), "tab");
}

#[test]
fn a_failure_while_opening_registers_nothing() {
    for successes in 0..3 {
        let mut state: LocalState<u32> = LocalState::new();
        let (mut c, _) = connect_local(&state, "tab".to_string(), 80, 24);
        for _ in 0..successes {
            c.step(&mut state, tick());
        }
        assert_eq!(
            c.step(&mut state, LocalConnectEvent::Failed("no pty".to_string())),
            LocalConnectAction::Finish(Err(SessionError {
                kind: ErrorKind::Transport,
                message: "no pty".to_string(),
            }))
        );
        assert_eq!(c.step(&mut state, LocalConnectEvent::Child(1)), LocalConnectAction::Stop);
        assert_eq!(state.len(), 0);
    }
}

#[test]
fn opening_a_registered_local_session_does_nothing() {
    let mut state: LocalState<u32> = LocalState::new();
    state.register("tab".to_string(), LocalSession::new(Some(1)));
    let (mut c, first) = connect_local(&state, "tab".to_string(), 80, 24);
    assert_eq!(first, LocalConnectAction::Finish(Ok(())));
    assert!(c.is_done());
    assert_eq!(c.step(&mut state, LocalConnectEvent::Child(2)), LocalConnectAction::Stop);
    assert_eq!(state.len(), 1);
    assert_eq!(state.get("tab").unwrap().child(), Some(&1));
}

#[test]
fn local_commands_on_an_unknown_session_succeed_and_change_nothing() {
    let mut state: LocalState<u32> = LocalState::new();
    state.register("tab".to_string(), LocalSession::new(Some(1)));
    assert_eq!(write_local(&mut state, "ghost".to_string(), "x".to_string()), Ok(()));
    assert_eq!(resize_local(&mut state, "ghost".to_string(), 10, 10), Ok(()));
    assert_eq!(disconnect_local(&mut state, "ghost".to_string()), Ok(None));
    assert_eq!(state.len(), 1);
    assert_eq!(state.get("tab").unwrap().pending_writes(), 0);
    assert_eq!(state.get("tab").unwrap().pending_resizes(), 0);
}

#[test]
fn local_writes_and_resizes_keep_their_order() {
    let mut state: LocalState<u32> = LocalState::new();
    state.register("tab".to_string(), LocalSession::new(None));
    write_local(&mut state, "tab".to_string(), "one".to_string()).unwrap();
    write_local(&mut state, "tab".to_string(), "two".to_string()).unwrap();
    resize_local(&mut state, "tab".to_string(), 90, 30).unwrap();
    resize_local(&mut state, "tab".to_string(), 91, 31).unwrap();
    assert_eq!(take_local_write(&mut state, "tab"), Some(b"one".to_vec()));
    assert_eq!(take_local_write(&mut state, "tab"), Some(b"two".to_vec()));
    assert_eq!(take_local_write(&mut state, "tab"), None);
    assert_eq!(take_local_resize(&mut state, "tab"), Some(TerminalSize { cols: 90, rows: 30 }));
    assert_eq!(take_local_resize(&mut state, "tab"), Some(TerminalSize { cols: 91, rows: 31 }));
    assert_eq!(take_local_resize(&mut state, "tab"), None);
}

#[test]
fn disconnect_hands_back_the_child_to_end() {
    let mut state: LocalState<u32> = LocalState::new();
    state.register("tab".to_string(), LocalSession::new(Some(99)));
    state.register("bare".to_string(), LocalSession::new(None));
    assert_eq!(disconnect_local(&mut state, "tab".to_string()), Ok(Some(99)));
    assert_eq!(disconnect_local(&mut state, "tab".to_string()), Ok(None));
    assert_eq!(disconnect_local(&mut state, "bare".to_string()), Ok(None));
    assert_eq!(state.len(), 0);
}
