//! The session worker: the loop that owns one transport and pumps bytes
//! between it and the user interface.
//!
//! The worker decides; its caller acts. Every call of [`Worker::step`] takes
//! what the last action brought and names the next action. One iteration
//! takes at most one pending write, then at most one pending resize, then
//! reads once without blocking, and sleeps only if none of the three did
//! anything.

use vstd::prelude::*;
use crate::backoff::Backoff;
use crate::backoff::BackoffState;
use crate::session::close_event;
use crate::session::close_event_name;
use crate::session::data_event;
use crate::session::data_event_name;
use crate::session::ReadOutcome;
use crate::session::ReadOutcomeView;
use crate::session::TerminalSize;
use crate::session::TransportKind;

verus! {

/// The shortest sleep of an idle worker, in milliseconds.
pub const WORKER_BACKOFF_MIN_MS: u64 = 10;

/// The longest sleep of an idle worker, in milliseconds.
pub const WORKER_BACKOFF_MAX_MS: u64 = 50;

/// What the worker has asked for last.
#[derive(Debug, Clone, Copy, PartialEq, Eq, Structural)]
pub enum WorkerPhase {
    /// Nothing yet.
    Idle,
    /// A pending write command.
    PollingWrite,
    /// Writing to the transport.
    Writing,
    /// A pending resize command.
    PollingResize,
    /// Resizing the transport.
    Resizing,
    /// A read from the transport.
    Reading,
    /// Handing output to the user interface.
    Emitting,
    /// A sleep.
    Sleeping,
    /// The close notification: the worker is done.
    Closed,
}

/// What the last action brought.
#[derive(Debug, PartialEq, Eq)]
pub enum WorkerEvent {
    /// The action is done and brought nothing: no command was pending, or a
    /// write, resize, notification or sleep has ended.
    Tick,
    /// A write command was pending.
    WriteCommand(Vec<u8>),
    /// A resize command was pending.
    ResizeCommand(TerminalSize),
    /// The read has ended.
    Read(ReadOutcome),
}

/// An event as plain values.
pub enum WorkerEventView {
    Tick,
    WriteCommand(Seq<u8>),
    ResizeCommand(TerminalSize),
    Read(ReadOutcomeView),
}

impl View for WorkerEvent {
    type V = WorkerEventView;

    open spec fn view(&self) -> WorkerEventView {
        match *self {
            WorkerEvent::Tick => WorkerEventView::Tick,
            WorkerEvent::WriteCommand(bytes) => WorkerEventView::WriteCommand(bytes@),
            WorkerEvent::ResizeCommand(size) => WorkerEventView::ResizeCommand(size),
            WorkerEvent::Read(outcome) => WorkerEventView::Read(outcome@),
        }
    }
}

/// What the caller has to do next.
#[derive(Debug, PartialEq, Eq)]
pub enum WorkerAction {
    /// Take one pending write command, if there is one.
    PollWrite,
    /// Write the bytes to the transport, all of them; a failure is ignored.
    WriteTransport(Vec<u8>),
    /// Take one pending resize command, if there is one.
    PollResize,
    /// Give the transport the new size; a failure is ignored.
    ResizeTransport(TerminalSize),
    /// Read from the transport without blocking.
    ReadTransport,
    /// Hand the bytes to the user interface under the given event name.
    EmitData { event: String, data: Vec<u8> },
    /// Sleep for so many milliseconds.
    Sleep(u64),
    /// Tell the user interface under the given event name that the session
    /// has closed.
    EmitClose { event: String },
    /// Return: the worker has ended.
    Stop,
}

/// An action as plain values.
pub enum WorkerActionView {
    PollWrite,
    WriteTransport(Seq<u8>),
    PollResize,
    ResizeTransport(TerminalSize),
    ReadTransport,
    EmitData { event: Seq<char>, data: Seq<u8> },
    Sleep(nat),
    EmitClose { event: Seq<char> },
    Stop,
}

impl View for WorkerAction {
    type V = WorkerActionView;

    open spec fn view(&self) -> WorkerActionView {
        match *self {
            WorkerAction::PollWrite => WorkerActionView::PollWrite,
            WorkerAction::WriteTransport(bytes) => WorkerActionView::WriteTransport(bytes@),
            WorkerAction::PollResize => WorkerActionView::PollResize,
            WorkerAction::ResizeTransport(size) => WorkerActionView::ResizeTransport(size),
            WorkerAction::ReadTransport => WorkerActionView::ReadTransport,
            WorkerAction::EmitData { event, data } => WorkerActionView::EmitData {
                event: event@,
                data: data@,
            },
            WorkerAction::Sleep(ms) => WorkerActionView::Sleep(ms as nat),
            WorkerAction::EmitClose { event } => WorkerActionView::EmitClose { event: event@ },
            WorkerAction::Stop => WorkerActionView::Stop,
        }
    }
}

impl WorkerActionView {
    /// The action touches the transport.
    pub open spec fn touches_transport(self) -> bool {
        self is WriteTransport || self is ResizeTransport || self is ReadTransport
    }
}

/// The worker as plain values.
pub struct WorkerView {
    pub id: Seq<char>,
    pub kind: TransportKind,
    pub phase: WorkerPhase,
    /// Whether the running iteration has done anything yet.
    pub activity: bool,
    pub backoff: BackoffState,
}

impl WorkerView {
    /// A worker that has not begun.
    pub open spec fn fresh(id: Seq<char>, kind: TransportKind) -> WorkerView {
        WorkerView {
            id,
            kind,
            phase: WorkerPhase::Idle,
            activity: false,
            backoff: BackoffState::fresh(
                WORKER_BACKOFF_MIN_MS as nat,
                WORKER_BACKOFF_MAX_MS as nat,
            ),
        }
    }

    /// The worker in another phase.
    pub open spec fn at(self, phase: WorkerPhase) -> WorkerView {
        WorkerView { phase, ..self }
    }

    /// The worker after something was done in the running iteration.
    pub open spec fn active(self, phase: WorkerPhase) -> WorkerView {
        WorkerView { phase, activity: true, ..self }
    }

    /// The start of an iteration.
    pub open spec fn begin(self) -> (WorkerView, WorkerActionView) {
        (
            WorkerView { phase: WorkerPhase::PollingWrite, activity: false, ..self },
            WorkerActionView::PollWrite,
        )
    }

    /// The end of an iteration: straight on to the next one if this one did
    /// anything, with the backoff at its floor again; else a sleep.
    pub open spec fn settle(self) -> (WorkerView, WorkerActionView) {
        if self.activity {
            WorkerView { backoff: self.backoff.after_reset(), ..self }.begin()
        } else {
            (
                WorkerView {
                    phase: WorkerPhase::Sleeping,
                    backoff: self.backoff.after_wait(),
                    ..self
                },
                WorkerActionView::Sleep(self.backoff.current),
            )
        }
    }

    /// The close of the session.
    pub open spec fn close(self) -> (WorkerView, WorkerActionView) {
        (
            self.at(WorkerPhase::Closed),
            WorkerActionView::EmitClose { event: close_event_name(self.kind, self.id) },
        )
    }

    /// The worker after `event`, and the action it asks for.
    pub open spec fn step(self, event: WorkerEventView) -> (WorkerView, WorkerActionView) {
        match self.phase {
            WorkerPhase::Idle => self.begin(),
            WorkerPhase::PollingWrite => match event {
                WorkerEventView::WriteCommand(bytes) => (
                    self.active(WorkerPhase::Writing),
                    WorkerActionView::WriteTransport(bytes),
                ),
                _ => (self.at(WorkerPhase::PollingResize), WorkerActionView::PollResize),
            },
            WorkerPhase::Writing => (
                self.at(WorkerPhase::PollingResize),
                WorkerActionView::PollResize,
            ),
            WorkerPhase::PollingResize => match event {
                WorkerEventView::ResizeCommand(size) => (
                    self.active(WorkerPhase::Resizing),
                    WorkerActionView::ResizeTransport(size),
                ),
                _ => (self.at(WorkerPhase::Reading), WorkerActionView::ReadTransport),
            },
            WorkerPhase::Resizing => (self.at(WorkerPhase::Reading), WorkerActionView::ReadTransport),
            WorkerPhase::Reading => match event {
                WorkerEventView::Read(outcome) => if outcome.has_data() {
                    (
                        self.active(WorkerPhase::Emitting),
                        WorkerActionView::EmitData {
                            event: data_event_name(self.kind, self.id),
                            data: outcome->Data_0,
                        },
                    )
                } else if outcome.is_terminal() {
                    self.close()
                } else {
                    self.settle()
                },
                _ => self.settle(),
            },
            WorkerPhase::Emitting => self.settle(),
            WorkerPhase::Sleeping => self.begin(),
            WorkerPhase::Closed => (self, WorkerActionView::Stop),
        }
    }

    /// The worker after the given events, one after the other.
    pub open spec fn after(self, events: Seq<WorkerEventView>) -> WorkerView
        decreases events.len(),
    {
        if events.len() == 0 {
            self
        } else {
            self.after(events.drop_last()).step(events.last()).0
        }
    }

    /// The actions that the worker asks for in answer to the given events:
    /// one for each event.
    pub open spec fn actions(self, events: Seq<WorkerEventView>) -> Seq<WorkerActionView>
        decreases events.len(),
    {
        if events.len() == 0 {
            Seq::empty()
        } else {
            self.actions(events.drop_last()).push(
                self.after(events.drop_last()).step(events.last()).1,
            )
        }
    }
}

/// The decisions of one session worker.
pub struct Worker {
    id: String,
    kind: TransportKind,
    phase: WorkerPhase,
    activity: bool,
    backoff: Backoff,
}

impl View for Worker {
    type V = WorkerView;

    closed spec fn view(&self) -> WorkerView {
        WorkerView {
            id: self.id@,
            kind: self.kind,
            phase: self.phase,
            activity: self.activity,
            backoff: self.backoff@,
        }
    }
}

impl Worker {
    /// The worker of session `id`, before its first step.
    pub fn new(id: String, kind: TransportKind) -> (worker: Worker)
        ensures
            worker@ == WorkerView::fresh(id@, kind),
    {
        Worker {
            id,
            kind,
            phase: WorkerPhase::Idle,
            activity: false,
            backoff: Backoff::new(WORKER_BACKOFF_MIN_MS, WORKER_BACKOFF_MAX_MS),
        }
    }

    /// The identifier of the session.
    pub fn id(&self) -> (id: &String)
        ensures
            id@ == self@.id,
    {
        &self.id
    }

    /// The kind of transport that the worker owns.
    pub fn kind(&self) -> (kind: TransportKind)
        ensures
            kind == self@.kind,
    {
        self.kind
    }

    /// What the worker has asked for last.
    pub fn phase(&self) -> (phase: WorkerPhase)
        ensures
            phase == self@.phase,
    {
        self.phase
    }

    /// Whether the worker has ended.
    pub fn is_closed(&self) -> (closed: bool)
        ensures
            closed == (self@.phase is Closed),
    {
        match self.phase {
            WorkerPhase::Closed => true,
            _ => false,
        }
    }

    /// The interval that the next sleep would take, in milliseconds.
    pub fn backoff_ms(&self) -> (ms: u64)
        ensures
            ms == self@.backoff.current,
    {
        self.backoff.current_ms()
    }

    fn begin(&mut self) -> (action: WorkerAction)
        ensures
            (final(self)@, action@) == old(self)@.begin(),
    {
        self.phase = WorkerPhase::PollingWrite;
        self.activity = false;
        WorkerAction::PollWrite
    }

    fn settle(&mut self) -> (action: WorkerAction)
        ensures
            (final(self)@, action@) == old(self)@.settle(),
    {
        if self.activity {
            self.backoff.reset();
            self.begin()
        } else {
            let ms: u64 = self.backoff.wait();
            self.phase = WorkerPhase::Sleeping;
            WorkerAction::Sleep(ms)
        }
    }

    fn close(&mut self) -> (action: WorkerAction)
        ensures
            (final(self)@, action@) == old(self)@.close(),
    {
        self.phase = WorkerPhase::Closed;
        WorkerAction::EmitClose { event: close_event(self.kind, self.id.as_str()) }
    }

    /// Takes what the last action brought and names the next action.
    ///
    /// An event that does not answer the last action counts as an answer
    /// that brought nothing.
    pub fn step(&mut self, event: WorkerEvent) -> (action: WorkerAction)
        ensures
            (final(self)@, action@) == old(self)@.step(event@),
    {
        match self.phase {
            WorkerPhase::Idle => self.begin(),
            WorkerPhase::PollingWrite => match event {
                WorkerEvent::WriteCommand(bytes) => {
                    self.phase = WorkerPhase::Writing;
                    self.activity = true;
                    WorkerAction::WriteTransport(bytes)
                },
                _ => {
                    self.phase = WorkerPhase::PollingResize;
                    WorkerAction::PollResize
                },
            },
            WorkerPhase::Writing => {
                self.phase = WorkerPhase::PollingResize;
                WorkerAction::PollResize
            },
            WorkerPhase::PollingResize => match event {
                WorkerEvent::ResizeCommand(size) => {
                    self.phase = WorkerPhase::Resizing;
                    self.activity = true;
                    WorkerAction::ResizeTransport(size)
                },
                _ => {
                    self.phase = WorkerPhase::Reading;
                    WorkerAction::ReadTransport
                },
            },
            WorkerPhase::Resizing => {
                self.phase = WorkerPhase::Reading;
                WorkerAction::ReadTransport
            },
            WorkerPhase::Reading => match event {
                WorkerEvent::Read(ReadOutcome::Data(data)) => {
                    if data.len() > 0 {
                        self.phase = WorkerPhase::Emitting;
                        self.activity = true;
                        WorkerAction::EmitData {
                            event: data_event(self.kind, self.id.as_str()),
                            data,
                        }
                    } else {
                        self.settle()
                    }
                },
                WorkerEvent::Read(ReadOutcome::Eof) => self.close(),
                WorkerEvent::Read(ReadOutcome::Failed(_)) => self.close(),
                _ => self.settle(),
            },
            WorkerPhase::Emitting => self.settle(),
            WorkerPhase::Sleeping => self.begin(),
            WorkerPhase::Closed => WorkerAction::Stop,
        }
    }
}

/// A worker that has closed stays closed and asks for nothing but to stop.
pub proof fn lemma_closed_worker_stops(w: WorkerView, events: Seq<WorkerEventView>)
    requires
        w.phase is Closed,
    ensures
        w.after(events) == w,
        forall|i: int| 0 <= i < events.len() ==> w.actions(events)[i] is Stop,
        w.actions(events).len() == events.len(),
    decreases events.len(),
{
    if events.len() > 0 {
        lemma_closed_worker_stops(w, events.drop_last());
    }
}

/// A run in two parts: the actions of the whole run are those of the first
/// part followed by those that the rest brings from where the first part
/// ended.
pub proof fn lemma_worker_run_splits(
    w: WorkerView,
    first: Seq<WorkerEventView>,
    rest: Seq<WorkerEventView>,
)
    ensures
        w.after(first + rest) == w.after(first).after(rest),
        w.actions(first + rest) == w.actions(first) + w.after(first).actions(rest),
    decreases rest.len(),
{
    if rest.len() == 0 {
        assert(first + rest =~= first);
        assert(w.actions(first) + w.after(first).actions(rest) =~= w.actions(first));
    } else {
        lemma_worker_run_splits(w, first, rest.drop_last());
        assert((first + rest).drop_last() =~= first + rest.drop_last());
        assert((first + rest).last() == rest.last());
        assert(w.actions(first + rest) =~= w.actions(first) + w.after(first).actions(rest));
    }
}

/// The worker answers every event with exactly one action.
pub proof fn lemma_worker_one_action_per_event(w: WorkerView, events: Seq<WorkerEventView>)
    ensures
        w.actions(events).len() == events.len(),
    decreases events.len(),
{
    if events.len() > 0 {
        lemma_worker_one_action_per_event(w, events.drop_last());
    }
}

/// A worker that is reading and learns that the transport has ended, by end
/// of stream or by failure, asks for the close notification of its session,
/// once, and for nothing after it but to stop: no further read, write or
/// resize, and no second notification, whatever events follow.
pub proof fn lemma_worker_closes_once(
    w: WorkerView,
    outcome: ReadOutcomeView,
    later: Seq<WorkerEventView>,
)
    requires
        w.phase is Reading,
        outcome.is_terminal(),
    ensures
        ({
            let events = seq![WorkerEventView::Read(outcome)] + later;
            let actions = w.actions(events);
            &&& actions.len() == later.len() + 1
            &&& actions[0] == (WorkerActionView::EmitClose {
                event: close_event_name(w.kind, w.id),
            })
            &&& forall|i: int| 1 <= i < actions.len() ==> actions[i] is Stop
            &&& w.after(events).phase is Closed
        }),
{
    let first = seq![WorkerEventView::Read(outcome)];
    assert(first.drop_last() =~= Seq::<WorkerEventView>::empty());
    assert(first.last() == WorkerEventView::Read(outcome));
    assert(w.after(first.drop_last()) == w);
    assert(w.actions(first.drop_last()) =~= Seq::<WorkerActionView>::empty());
    assert(w.actions(first) =~= seq![w.step(WorkerEventView::Read(outcome)).1]);
    let closed = w.after(first);
    assert(closed.phase is Closed);
    lemma_worker_run_splits(w, first, later);
    lemma_closed_worker_stops(closed, later);
    let actions = w.actions(first + later);
    assert forall|i: int| 1 <= i < actions.len() implies actions[i] is Stop by {
        assert(actions[i] == closed.actions(later)[i - 1]);
    }
}

/// In any run, once the close notification was asked for, every later
/// action is to stop: a run holds at most one close notification, and no
/// action on the transport follows it.
pub proof fn lemma_worker_nothing_follows_close(
    w: WorkerView,
    events: Seq<WorkerEventView>,
    i: int,
    j: int,
)
    requires
        0 <= i < j < events.len(),
        w.actions(events)[i] is EmitClose,
    ensures
        w.actions(events)[j] is Stop,
        !w.actions(events)[j].touches_transport(),
        !(w.actions(events)[j] is EmitClose),
{
    let first = events.subrange(0, i + 1);
    let rest = events.subrange(i + 1, events.len() as int);
    assert(first + rest =~= events);
    lemma_worker_run_splits(w, first, rest);
    lemma_worker_one_action_per_event(w, first);
    assert(first.drop_last() =~= events.subrange(0, i));
    let before = w.after(first.drop_last());
    assert(w.actions(first)[i] == before.step(first.last()).1);
    assert(w.actions(events)[i] == w.actions(first)[i]);
    assert(w.after(first).phase is Closed);
    lemma_closed_worker_stops(w.after(first), rest);
    assert(w.actions(events)[j] == w.after(first).actions(rest)[j - i - 1]);
}

/// An iteration in which nothing is pending and nothing arrives ends in a
/// sleep of the current backoff interval, and lengthens the next one; an
/// iteration in which bytes arrive ends without a sleep and with the backoff
/// at its floor.
pub proof fn lemma_worker_iteration_backoff(w: WorkerView, data: Seq<u8>)
    requires
        w.phase is PollingWrite,
        !w.activity,
        data.len() > 0,
    ensures
        ({
            let idle = seq![
                WorkerEventView::Tick,
                WorkerEventView::Tick,
                WorkerEventView::Read(ReadOutcomeView::WouldBlock),
            ];
            &&& w.actions(idle) == seq![
                WorkerActionView::PollResize,
                WorkerActionView::ReadTransport,
                WorkerActionView::Sleep(w.backoff.current),
            ]
            &&& w.after(idle).backoff == w.backoff.after_wait()
            &&& w.after(idle).phase is Sleeping
        }),
        ({
            let busy = seq![
                WorkerEventView::Tick,
                WorkerEventView::Tick,
                WorkerEventView::Read(ReadOutcomeView::Data(data)),
                WorkerEventView::Tick,
            ];
            &&& w.actions(busy) == seq![
                WorkerActionView::PollResize,
                WorkerActionView::ReadTransport,
                WorkerActionView::EmitData { event: data_event_name(w.kind, w.id), data },
                WorkerActionView::PollWrite,
            ]
            &&& w.after(busy).backoff == w.backoff.after_reset()
            &&& w.after(busy).phase is PollingWrite
            &&& !w.after(busy).activity
        }),
{
    let idle = seq![
        WorkerEventView::Tick,
        WorkerEventView::Tick,
        WorkerEventView::Read(ReadOutcomeView::WouldBlock),
    ];
    lemma_worker_unfold(w, idle);
    lemma_worker_unfold(w, idle.drop_last());
    lemma_worker_unfold(w, idle.drop_last().drop_last());
    assert(idle.drop_last().drop_last().drop_last() =~= Seq::<WorkerEventView>::empty());
    assert(w.actions(idle) =~= seq![
        WorkerActionView::PollResize,
        WorkerActionView::ReadTransport,
        WorkerActionView::Sleep(w.backoff.current),
    ]);
    let busy = seq![
        WorkerEventView::Tick,
        WorkerEventView::Tick,
        WorkerEventView::Read(ReadOutcomeView::Data(data)),
        WorkerEventView::Tick,
    ];
    lemma_worker_unfold(w, busy);
    lemma_worker_unfold(w, busy.drop_last());
    lemma_worker_unfold(w, busy.drop_last().drop_last());
    lemma_worker_unfold(w, busy.drop_last().drop_last().drop_last());
    assert(busy.drop_last().drop_last().drop_last().drop_last() =~= Seq::<
        WorkerEventView,
    >::empty());
    assert(w.actions(busy) =~= seq![
        WorkerActionView::PollResize,
        WorkerActionView::ReadTransport,
        WorkerActionView::EmitData { event: data_event_name(w.kind, w.id), data },
        WorkerActionView::PollWrite,
    ]);
}

proof fn lemma_worker_unfold(w: WorkerView, events: Seq<WorkerEventView>)
    requires
        events.len() > 0,
    ensures
        w.after(events) == w.after(events.drop_last()).step(events.last()).0,
        w.actions(events) == w.actions(events.drop_last()).push(
            w.after(events.drop_last()).step(events.last()).1,
        ),
{
}

} // verus!
