use nebula_ssh::session::classify_read;
use nebula_ssh::session::close_event;
use nebula_ssh::session::data_event;
use nebula_ssh::session::RawRead;
use nebula_ssh::session::ReadOutcome;
use nebula_ssh::session::TerminalSize;
use nebula_ssh::session::TransportKind;
use nebula_ssh::worker::Worker;
use nebula_ssh::worker::WorkerAction;
use nebula_ssh::worker::WorkerEvent;
use nebula_ssh::worker::WorkerPhase;

fn tick() -> WorkerEvent {
    WorkerEvent::Tick
}

fn would_block() -> WorkerEvent {
    WorkerEvent::Read(ReadOutcome::WouldBlock)
}

#[test]
fn event_names_carry_kind_and_identifier() {
    assert_eq!(data_event(TransportKind::Remote, "abc"), "ssh_data_abc");
    assert_eq!(close_event(TransportKind::Remote, "abc"), "ssh_close_abc");
    assert_eq!(data_event(TransportKind::Local, "tab-1"), "local_data_tab-1");
    assert_eq!(close_event(TransportKind::Local, ""), "local_close_");
}

#[test]
fn an_iteration_writes_then_resizes_then_reads() {
    let mut w = Worker::new("s1".to_string(), TransportKind::Remote);
    assert_eq!(w.phase(), WorkerPhase::Idle);
    assert_eq!(w.step(tick()), WorkerAction::PollWrite);
    assert_eq!(
        w.step(WorkerEvent::WriteCommand(b"ls\n".to_vec())),
        WorkerAction::WriteTransport(b"ls\n".to_vec())
    );
    assert_eq!(w.step(tick()), WorkerAction::PollResize);
    assert_eq!(
        w.step(WorkerEvent::ResizeCommand(TerminalSize { cols: 100, rows: 30 })),
        WorkerAction::ResizeTransport(TerminalSize { cols: 100, rows: 30 })
    );
    assert_eq!(w.step(tick()), WorkerAction::ReadTransport);
    assert_eq!(
        w.step(WorkerEvent::Read(ReadOutcome::Data(b"file\n".to_vec()))),
        WorkerAction::EmitData { event: "ssh_data_s1".to_string(), data: b"file\n".to_vec() }
    );
    assert_eq!(w.step(tick()), WorkerAction::PollWrite);
    assert_eq!(w.backoff_ms(), 10);
}

#[test]
fn idle_iterations_sleep_longer_and_longer() {
    let mut w = Worker::new("s1".to_string(), TransportKind::Remote);
    assert_eq!(w.step(tick()), WorkerAction::PollWrite);
    let mut sleeps = Vec::new();
    for _ in 0..7 {
        assert_eq!(w.step(tick()), WorkerAction::PollResize);
        assert_eq!(w.step(tick()), WorkerAction::ReadTransport);
        match w.step(would_block()) {
            WorkerAction::Sleep(ms) => sleeps.push(ms),
            other => panic!("expected a sleep, got {:?}", other),
        }
        assert_eq!(w.step(tick()), WorkerAction::PollWrite);
    }
    assert_eq!(sleeps, vec![10, 20, 30, 40, 50, 50, 50]);
}

#[test]
fn any_activity_resets_the_backoff() {
    let mut w = Worker::new("s1".to_string(), TransportKind::Local);
    w.step(tick());
    for _ in 0..3 {
        w.step(tick());
        w.step(tick());
        w.step(would_block());
        w.step(tick());
    }
    assert_eq!(w.backoff_ms(), 40);
    assert_eq!(w.step(WorkerEvent::WriteCommand(vec![1])), WorkerAction::WriteTransport(vec![1]));
    assert_eq!(w.step(tick()), WorkerAction::PollResize);
    assert_eq!(w.step(tick()), WorkerAction::ReadTransport);
    assert_eq!(w.step(would_block()), WorkerAction::PollWrite);
    assert_eq!(w.backoff_ms(), 10);

    for _ in 0..2 {
        w.step(tick());
        w.step(tick());
        w.step(would_block());
        w.step(tick());
    }
    assert_eq!(w.backoff_ms(), 30);
    assert_eq!(w.step(tick()), WorkerAction::PollResize);
    assert_eq!(
        w.step(WorkerEvent::ResizeCommand(TerminalSize { cols: 1, rows: 2 })),
        WorkerAction::ResizeTransport(TerminalSize { cols: 1, rows: 2 })
    );
    assert_eq!(w.step(tick()), WorkerAction::ReadTransport);
    assert_eq!(w.step(would_block()), WorkerAction::PollWrite);
    assert_eq!(w.backoff_ms(), 10);
}

#[test]
fn an_empty_read_counts_as_nothing_to_read() {
    let mut w = Worker::new("s1".to_string(), TransportKind::Remote);
    w.step(tick());
    w.step(tick());
    w.step(tick());
    assert_eq!(w.step(WorkerEvent::Read(ReadOutcome::Data(Vec::new()))), WorkerAction::Sleep(10));
    assert!(!w.is_closed());
}

#[test]
fn end_of_stream_closes_the_worker_once() {
    let mut w = Worker::new("s1".to_string(), TransportKind::Remote);
    w.step(tick());
    w.step(tick());
    assert_eq!(w.step(tick()), WorkerAction::ReadTransport);
    assert_eq!(
        w.step(WorkerEvent::Read(ReadOutcome::Eof)),
        WorkerAction::EmitClose { event: "ssh_close_s1".to_string() }
    );
    assert!(w.is_closed());
    assert_eq!(w.step(tick()), WorkerAction::Stop);
    assert_eq!(w.step(WorkerEvent::WriteCommand(vec![1, 2])), WorkerAction::Stop);
    assert_eq!(
        w.step(WorkerEvent::ResizeCommand(TerminalSize { cols: 1, rows: 1 })),
        WorkerAction::Stop
    );
    assert_eq!(w.step(WorkerEvent::Read(ReadOutcome::Data(vec![1]))), WorkerAction::Stop);
    assert_eq!(w.step(WorkerEvent::Read(ReadOutcome::Eof)), WorkerAction::Stop);
    assert!(w.is_closed());
}

#[test]
fn a_failed_read_closes_the_worker() {
    let mut w = Worker::new("pane".to_string(), TransportKind::Local);
    w.step(tick());
    w.step(tick());
    w.step(tick());
    assert_eq!(
        w.step(WorkerEvent::Read(ReadOutcome::Failed("connection reset".to_string()))),
        WorkerAction::EmitClose { event: "local_close_pane".to_string() }
    );
    assert_eq!(w.phase(), WorkerPhase::Closed);
    assert_eq!(w.step(tick()), WorkerAction::Stop);
}

#[test]
fn a_write_in_the_same_iteration_as_end_of_stream_still_goes_out_first() {
    let mut w = Worker::new("s".to_string(), TransportKind::Remote);
    w.step(tick());
    assert_eq!(w.step(WorkerEvent::WriteCommand(vec![9])), WorkerAction::WriteTransport(vec![9]));
    assert_eq!(w.step(tick()), WorkerAction::PollResize);
    assert_eq!(w.step(tick()), WorkerAction::ReadTransport);
    assert_eq!(
        w.step(WorkerEvent::Read(ReadOutcome::Eof)),
        WorkerAction::EmitClose { event: "ssh_close_s".to_string() }
    );
}

#[test]
fn an_event_that_answers_nothing_counts_as_nothing() {
    let mut w = Worker::new("s".to_string(), TransportKind::Remote);
    assert_eq!(w.step(WorkerEvent::Read(ReadOutcome::Eof)), WorkerAction::PollWrite);
    assert_eq!(w.step(WorkerEvent::Read(ReadOutcome::Eof)), WorkerAction::PollResize);
    assert_eq!(w.step(WorkerEvent::WriteCommand(vec![1])), WorkerAction::ReadTransport);
    assert_eq!(w.step(WorkerEvent::WriteCommand(vec![1])), WorkerAction::Sleep(10));
    assert_eq!(w.kind(), TransportKind::Remote);
    assert_eq!(w.id(), "s");
}

#[test]
fn a_read_is_told_apart_by_its_count_and_the_end_of_the_stream() {
    let buf = [1u8, 2, 3, 4];
    assert_eq!(classify_read(RawRead::Count(3), &buf, false), ReadOutcome::Data(vec![1, 2, 3]));
    assert_eq!(classify_read(RawRead::Count(4), &buf, true), ReadOutcome::Data(vec![1, 2, 3, 4]));
    assert_eq!(classify_read(RawRead::Count(1), &buf, true), ReadOutcome::Data(vec![1]));
    assert_eq!(classify_read(RawRead::Count(0), &buf, true), ReadOutcome::Eof);
    assert_eq!(classify_read(RawRead::Count(0), &buf, false), ReadOutcome::WouldBlock);
    assert_eq!(classify_read(RawRead::Count(0), &[], true), ReadOutcome::Eof);
    assert_eq!(classify_read(RawRead::WouldBlock, &buf, true), ReadOutcome::WouldBlock);
    assert_eq!(classify_read(RawRead::WouldBlock, &buf, false), ReadOutcome::WouldBlock);
    assert_eq!(
        classify_read(RawRead::Failed("reset".to_string()), &buf, false),
        ReadOutcome::Failed("reset".to_string())
    );
    assert_eq!(
        classify_read(RawRead::Failed("reset".to_string()), &buf, true),
        ReadOutcome::Failed("reset".to_string())
    );
}
