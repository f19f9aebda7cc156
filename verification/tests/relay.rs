use nebula_ssh::models::PortForwardingRule;
use nebula_ssh::relay::relay_targets;
use nebula_ssh::relay::Relay;
use nebula_ssh::relay::RelayAction;
use nebula_ssh::relay::RelayEvent;
use nebula_ssh::relay::RelayPhase;
use nebula_ssh::relay::RelayTarget;
use nebula_ssh::relay::Tunnel;
use nebula_ssh::relay::TunnelAction;
use nebula_ssh::relay::TunnelEvent;
use nebula_ssh::relay::TunnelPhase;
use nebula_ssh::session::ErrorKind;
use nebula_ssh::session::ReadOutcome;
use nebula_ssh::session::SessionError;

fn data(bytes: &[u8]) -> RelayEvent {
    RelayEvent::Read(ReadOutcome::Data(bytes.to_vec()))
}

fn would_block() -> RelayEvent {
    RelayEvent::Read(ReadOutcome::WouldBlock)
}

fn rule(kind: &str, source: u16, host: Option<&str>, port: Option<u16>) -> PortForwardingRule {
    PortForwardingRule {
        rule_type: kind.to_string(),
        source_port: source,
        destination_host: host.map(|h| h.to_string()),
        destination_port: port,
    }
}

#[test]
fn only_local_rules_become_tunnels_and_gaps_get_defaults() {
    let rules = vec![
        rule("Local", 8080, Some("db.internal"), Some(5432)),
        rule("Remote", 9090, Some("x"), Some(1)),
        rule("Local", 8081, None, None),
        rule("local", 8082, None, None),
        rule("Dynamic", 1080, None, None),
        rule("Local", 8083, None, Some(443)),
    ];
    assert_eq!(
        relay_targets(&rules),
        vec![
            RelayTarget {
                source_port: 8080,
                destination_host: "db.internal".to_string(),
                destination_port: 5432
            },
            RelayTarget {
                source_port: 8081,
                destination_host: "127.0.0.1".to_string(),
                destination_port: 80
            },
            RelayTarget {
                source_port: 8083,
                destination_host: "127.0.0.1".to_string(),
                destination_port: 443
            },
        ]
    );
    assert_eq!(relay_targets(&Vec::new()), Vec::new());
}

#[test]
fn a_relay_copies_bytes_both_ways() {
    let mut r = Relay::new();
    assert_eq!(r.phase(), RelayPhase::Idle);
    assert_eq!(r.step(RelayEvent::Tick), RelayAction::ReadLocal);
    assert_eq!(r.step(data(b"ping")), RelayAction::WriteRemote(b"ping".to_vec()));
    assert_eq!(r.step(RelayEvent::Tick), RelayAction::ReadRemote);
    assert_eq!(r.step(data(b"pong")), RelayAction::WriteLocal(b"pong".to_vec()));
    assert_eq!(r.step(RelayEvent::Tick), RelayAction::ReadLocal);
    assert!(!r.is_closed());
}

#[test]
fn an_idle_relay_sleeps_longer_and_longer_until_bytes_pass() {
    let mut r = Relay::new();
    r.step(RelayEvent::Tick);
    let mut sleeps = Vec::new();
    for _ in 0..6 {
        assert_eq!(r.step(would_block()), RelayAction::ReadRemote);
        match r.step(would_block()) {
            RelayAction::Sleep(ms) => sleeps.push(ms),
            other => panic!("expected a sleep, got {:?}", other),
        }
        assert_eq!(r.step(RelayEvent::Tick), RelayAction::ReadLocal);
    }
    assert_eq!(sleeps, vec![10, 20, 30, 40, 50, 50]);
    assert_eq!(r.step(would_block()), RelayAction::ReadRemote);
    assert_eq!(r.step(data(b"x")), RelayAction::WriteLocal(b"x".to_vec()));
    assert_eq!(r.step(RelayEvent::Tick), RelayAction::ReadLocal);
    assert_eq!(r.step(would_block()), RelayAction::ReadRemote);
    assert_eq!(r.step(would_block()), RelayAction::Sleep(10));
}

#[test]
fn a_relay_ends_when_the_local_side_ends() {
    let mut r = Relay::new();
    r.step(RelayEvent::Tick);
    assert_eq!(r.step(RelayEvent::Read(ReadOutcome::Eof)), RelayAction::Close);
    assert!(r.is_closed());
    assert_eq!(r.step(RelayEvent::Tick), RelayAction::Stop);
    assert_eq!(r.step(data(b"late")), RelayAction::Stop);
}

#[test]
fn a_relay_ends_when_the_remote_side_ends_or_fails() {
    let mut r = Relay::new();
    r.step(RelayEvent::Tick);
    assert_eq!(r.step(would_block()), RelayAction::ReadRemote);
    assert_eq!(r.step(RelayEvent::Read(ReadOutcome::Eof)), RelayAction::Close);
    assert_eq!(r.step(RelayEvent::Tick), RelayAction::Stop);

    let mut f = Relay::new();
    f.step(RelayEvent::Tick);
    f.step(would_block());
    assert_eq!(
        f.step(RelayEvent::Read(ReadOutcome::Failed("reset".to_string()))),
        RelayAction::Close
    );
    assert_eq!(f.phase(), RelayPhase::Closed);
}

#[test]
fn a_relay_ends_when_a_write_fails() {
    let mut r = Relay::new();
    r.step(RelayEvent::Tick);
    assert_eq!(r.step(data(b"up")), RelayAction::WriteRemote(b"up".to_vec()));
    assert_eq!(r.step(RelayEvent::WriteFailed), RelayAction::Close);
    assert!(r.is_closed());

    let mut l = Relay::new();
    l.step(RelayEvent::Tick);
    l.step(would_block());
    assert_eq!(l.step(data(b"down")), RelayAction::WriteLocal(b"down".to_vec()));
    assert_eq!(l.step(RelayEvent::WriteFailed), RelayAction::Close);
    assert_eq!(l.step(RelayEvent::Tick), RelayAction::Stop);
}

#[test]
fn an_unreachable_destination_fails_only_its_own_connection() {
    let target = RelayTarget {
        source_port: 9000,
        destination_host: "unreachable.invalid".to_string(),
        destination_port: 1,
    };
    let mut tunnel = Tunnel::new(target);
    assert_eq!(tunnel.step(TunnelEvent::Tick), TunnelAction::Bind { port: 9000 });
    assert_eq!(tunnel.step(TunnelEvent::Tick), TunnelAction::Accept);
    assert_eq!(
        tunnel.step(TunnelEvent::Accepted),
        TunnelAction::OpenChannel { host: "unreachable.invalid".to_string(), port: 1 }
    );
    assert_eq!(
        tunnel.step(TunnelEvent::Failed("connection refused".to_string())),
        TunnelAction::DropConnection(SessionError {
            kind: ErrorKind::Relay,
            message: "Failed to create channel: connection refused".to_string(),
        })
    );
    assert_eq!(tunnel.step(TunnelEvent::Tick), TunnelAction::Accept);
    assert_eq!(tunnel.phase(), TunnelPhase::Accepting);

    assert_eq!(
        tunnel.step(TunnelEvent::Accepted),
        TunnelAction::OpenChannel { host: "unreachable.invalid".to_string(), port: 1 }
    );
    assert_eq!(tunnel.step(TunnelEvent::Tick), TunnelAction::StartRelay);
    let mut relay = Relay::new();
    assert_eq!(relay.step(RelayEvent::Tick), RelayAction::ReadLocal);
    assert_eq!(relay.step(data(b"echo me")), RelayAction::WriteRemote(b"echo me".to_vec()));
    assert_eq!(relay.step(RelayEvent::Tick), RelayAction::ReadRemote);
    assert_eq!(relay.step(data(b"echo me")), RelayAction::WriteLocal(b"echo me".to_vec()));
    assert_eq!(relay.step(RelayEvent::Tick), RelayAction::ReadLocal);
    assert_eq!(tunnel.step(TunnelEvent::Tick), TunnelAction::Accept);
    assert_eq!(tunnel.target().source_port, 9000);
}

#[test]
fn a_tunnel_that_cannot_bind_stops() {
    let mut tunnel = Tunnel::new(RelayTarget {
        source_port: 80,
        destination_host: "h".to_string(),
        destination_port: 8080,
    });
    assert_eq!(tunnel.step(TunnelEvent::Tick), TunnelAction::Bind { port: 80 });
    assert_eq!(tunnel.step(TunnelEvent::Failed("denied".to_string())), TunnelAction::Stop);
    assert_eq!(tunnel.phase(), TunnelPhase::Closed);
    assert_eq!(tunnel.step(TunnelEvent::Accepted), TunnelAction::Stop);
}

#[test]
fn a_failed_accept_keeps_the_tunnel_accepting() {
    let mut tunnel = Tunnel::new(RelayTarget {
        source_port: 0,
        destination_host: "h".to_string(),
        destination_port: 22,
    });
    assert_eq!(tunnel.step(TunnelEvent::Tick), TunnelAction::Bind { port: 0 });
    assert_eq!(tunnel.step(TunnelEvent::Tick), TunnelAction::Accept);
    assert_eq!(tunnel.step(TunnelEvent::Failed("aborted".to_string())), TunnelAction::Accept);
    assert_eq!(tunnel.step(TunnelEvent::Tick), TunnelAction::Accept);
    assert_eq!(
        tunnel.step(TunnelEvent::Accepted),
        TunnelAction::OpenChannel { host: "h".to_string(), port: 22 }
    );
}
