//! The tunnel relay: a listener on this machine and, for each connection it
//! accepts, a full-duplex copy between that connection and a channel opened
//! over a remote session.
//!
//! Both are machines that decide while their caller acts: each step takes
//! what the last action brought and names the next action.

use vstd::prelude::*;
use crate::backoff::Backoff;
use crate::backoff::BackoffState;
use crate::models::local_rule_type;
use crate::models::PortForwardingRule;
use crate::registry::str_equal;
use crate::session::ErrorKind;
use crate::session::ReadOutcome;
use crate::session::ReadOutcomeView;
use crate::session::SessionError;
use crate::session::SessionErrorView;

verus! {

/// The shortest sleep of an idle relay, in milliseconds.
pub const RELAY_BACKOFF_MIN_MS: u64 = 10;

/// The longest sleep of an idle relay, in milliseconds.
pub const RELAY_BACKOFF_MAX_MS: u64 = 50;

/// The port that a rule forwards to when it names none.
pub const DEFAULT_DESTINATION_PORT: u16 = 80;

/// The host that a rule forwards to when it names none.
pub open spec fn default_destination_host() -> Seq<char> {
    seq!['1', '2', '7', '.', '0', '.', '0', '.', '1']
}

/// Where a tunnel listens and where it forwards to. Source port 0 stands
/// for a port that the system picks.
#[derive(Debug, PartialEq, Eq)]
pub struct RelayTarget {
    pub source_port: u16,
    pub destination_host: String,
    pub destination_port: u16,
}

/// A relay target as plain values.
pub struct RelayTargetView {
    pub source_port: u16,
    pub destination_host: Seq<char>,
    pub destination_port: u16,
}

impl View for RelayTarget {
    type V = RelayTargetView;

    open spec fn view(&self) -> RelayTargetView {
        RelayTargetView {
            source_port: self.source_port,
            destination_host: self.destination_host@,
            destination_port: self.destination_port,
        }
    }
}

impl RelayTarget {
    /// A copy of the target.
    pub fn duplicate(&self) -> (copy: RelayTarget)
        ensures
            copy@ == self@,
    {
        RelayTarget {
            source_port: self.source_port,
            destination_host: self.destination_host.clone(),
            destination_port: self.destination_port,
        }
    }
}

/// Whether a rule forwards a port of this machine.
pub open spec fn is_local_rule(rule: PortForwardingRule) -> bool {
    rule.rule_type@ == local_rule_type()
}

/// The target of a rule, with the defaults for what the rule leaves open.
pub open spec fn target_of(rule: PortForwardingRule) -> RelayTargetView {
    RelayTargetView {
        source_port: rule.source_port,
        destination_host: match rule.destination_host {
            Some(host) => host@,
            None => default_destination_host(),
        },
        destination_port: match rule.destination_port {
            Some(port) => port,
            None => DEFAULT_DESTINATION_PORT,
        },
    }
}

/// The targets of the local rules among `rules`, in the order of the rules.
pub open spec fn targets_of(rules: Seq<PortForwardingRule>) -> Seq<RelayTargetView>
    decreases rules.len(),
{
    if rules.len() == 0 {
        Seq::empty()
    } else if is_local_rule(rules.last()) {
        targets_of(rules.drop_last()).push(target_of(rules.last()))
    } else {
        targets_of(rules.drop_last())
    }
}

/// The targets as plain values.
pub open spec fn target_views(targets: Seq<RelayTarget>) -> Seq<RelayTargetView> {
    Seq::new(targets.len(), |i: int| targets[i]@)
}

/// Whether a rule forwards a port of this machine.
pub fn rule_is_local(rule: &PortForwardingRule) -> (local: bool)
    ensures
        local == is_local_rule(*rule),
{
    proof {
        reveal_strlit("Local");
    }
    assert("Local"@ =~= local_rule_type());
    str_equal(rule.rule_type.as_str(), "Local")
}

/// The target of a rule.
pub fn rule_target(rule: &PortForwardingRule) -> (target: RelayTarget)
    ensures
        target@ == target_of(*rule),
{
    proof {
        reveal_strlit("127.0.0.1");
    }
    assert("127.0.0.1"@ =~= default_destination_host());
    let destination_host = match &rule.destination_host {
        Some(host) => host.clone(),
        None => String::from_str("127.0.0.1"),
    };
    let destination_port = match rule.destination_port {
        Some(port) => port,
        None => DEFAULT_DESTINATION_PORT,
    };
    RelayTarget { source_port: rule.source_port, destination_host, destination_port }
}

/// The tunnels to open for a session: one for each local rule.
pub fn relay_targets(rules: &Vec<PortForwardingRule>) -> (targets: Vec<RelayTarget>)
    ensures
        target_views(targets@) == targets_of(rules@),
{
    let mut targets: Vec<RelayTarget> = Vec::new();
    let mut i: usize = 0;
    assert(rules@.subrange(0, 0) =~= Seq::<PortForwardingRule>::empty());
    assert(target_views(targets@) =~= targets_of(rules@.subrange(0, 0)));
    while i < rules.len()
        invariant
            i <= rules.len(),
            target_views(targets@) == targets_of(rules@.subrange(0, i as int)),
        decreases rules.len() - i,
    {
        let ghost before = targets@;
        assert(rules@.subrange(0, i + 1).drop_last() =~= rules@.subrange(0, i as int));
        assert(rules@.subrange(0, i + 1).last() == rules@[i as int]);
        if rule_is_local(&rules[i]) {
            let target = rule_target(&rules[i]);
            targets.push(target);
            assert(target_views(targets@) =~= target_views(before).push(target@));
        }
        i += 1;
    }
    assert(rules@.subrange(0, i as int) =~= rules@);
    targets
}

/// What the relay of one connection has asked for last.
#[derive(Debug, Clone, Copy, PartialEq, Eq, Structural)]
pub enum RelayPhase {
    /// Nothing yet.
    Idle,
    /// A read from the local connection.
    ReadingLocal,
    /// A write to the remote channel.
    WritingRemote,
    /// A read from the remote channel.
    ReadingRemote,
    /// A write to the local connection.
    WritingLocal,
    /// A sleep.
    Sleeping,
    /// To close both ends: the relay is done.
    Closed,
}

/// What the last action of a relay brought.
#[derive(Debug, PartialEq, Eq)]
pub enum RelayEvent {
    /// The action is done: a write went through, or a sleep has ended.
    Tick,
    /// The read has ended.
    Read(ReadOutcome),
    /// The write failed.
    WriteFailed,
}

/// A relay event as plain values.
pub enum RelayEventView {
    Tick,
    Read(ReadOutcomeView),
    WriteFailed,
}

impl View for RelayEvent {
    type V = RelayEventView;

    open spec fn view(&self) -> RelayEventView {
        match *self {
            RelayEvent::Tick => RelayEventView::Tick,
            RelayEvent::Read(outcome) => RelayEventView::Read(outcome@),
            RelayEvent::WriteFailed => RelayEventView::WriteFailed,
        }
    }
}

/// What the caller of a relay has to do next.
#[derive(Debug, PartialEq, Eq)]
pub enum RelayAction {
    /// Read from the local connection without blocking.
    ReadLocal,
    /// Write the bytes to the remote channel, all of them.
    WriteRemote(Vec<u8>),
    /// Read from the remote channel without blocking.
    ReadRemote,
    /// Write the bytes to the local connection, all of them.
    WriteLocal(Vec<u8>),
    /// Sleep for so many milliseconds.
    Sleep(u64),
    /// Close the local connection and the remote channel.
    Close,
    /// Return: the relay has ended.
    Stop,
}

/// A relay action as plain values.
pub enum RelayActionView {
    ReadLocal,
    WriteRemote(Seq<u8>),
    ReadRemote,
    WriteLocal(Seq<u8>),
    Sleep(nat),
    Close,
    Stop,
}

impl View for RelayAction {
    type V = RelayActionView;

    open spec fn view(&self) -> RelayActionView {
        match *self {
            RelayAction::ReadLocal => RelayActionView::ReadLocal,
            RelayAction::WriteRemote(bytes) => RelayActionView::WriteRemote(bytes@),
            RelayAction::ReadRemote => RelayActionView::ReadRemote,
            RelayAction::WriteLocal(bytes) => RelayActionView::WriteLocal(bytes@),
            RelayAction::Sleep(ms) => RelayActionView::Sleep(ms as nat),
            RelayAction::Close => RelayActionView::Close,
            RelayAction::Stop => RelayActionView::Stop,
        }
    }
}

/// The relay of one connection as plain values.
pub struct RelayView {
    pub phase: RelayPhase,
    /// Whether the running iteration has copied anything yet.
    pub activity: bool,
    pub backoff: BackoffState,
}

impl RelayView {
    /// A relay that has not begun.
    pub open spec fn fresh() -> RelayView {
        RelayView {
            phase: RelayPhase::Idle,
            activity: false,
            backoff: BackoffState::fresh(RELAY_BACKOFF_MIN_MS as nat, RELAY_BACKOFF_MAX_MS as nat),
        }
    }

    /// The relay in another phase.
    pub open spec fn at(self, phase: RelayPhase) -> RelayView {
        RelayView { phase, ..self }
    }

    /// The start of an iteration.
    pub open spec fn begin(self) -> (RelayView, RelayActionView) {
        (
            RelayView { phase: RelayPhase::ReadingLocal, activity: false, ..self },
            RelayActionView::ReadLocal,
        )
    }

    /// The end of an iteration: on to the next one if this one copied
    /// anything, with the backoff at its floor again; else a sleep.
    pub open spec fn settle(self) -> (RelayView, RelayActionView) {
        if self.activity {
            RelayView { backoff: self.backoff.after_reset(), ..self }.begin()
        } else {
            (
                RelayView {
                    phase: RelayPhase::Sleeping,
                    backoff: self.backoff.after_wait(),
                    ..self
                },
                RelayActionView::Sleep(self.backoff.current),
            )
        }
    }

    /// The end of the relay.
    pub open spec fn close(self) -> (RelayView, RelayActionView) {
        (self.at(RelayPhase::Closed), RelayActionView::Close)
    }

    /// The relay after `event`, and the action it asks for.
    pub open spec fn step(self, event: RelayEventView) -> (RelayView, RelayActionView) {
        match self.phase {
            RelayPhase::Idle => self.begin(),
            RelayPhase::ReadingLocal => match event {
                RelayEventView::Read(outcome) => if outcome.has_data() {
                    (
                        self.at(RelayPhase::WritingRemote),
                        RelayActionView::WriteRemote(outcome->Data_0),
                    )
                } else if outcome.is_terminal() {
                    self.close()
                } else {
                    (self.at(RelayPhase::ReadingRemote), RelayActionView::ReadRemote)
                },
                _ => (self.at(RelayPhase::ReadingRemote), RelayActionView::ReadRemote),
            },
            RelayPhase::WritingRemote => match event {
                RelayEventView::WriteFailed => self.close(),
                _ => (
                    RelayView { phase: RelayPhase::ReadingRemote, activity: true, ..self },
                    RelayActionView::ReadRemote,
                ),
            },
            RelayPhase::ReadingRemote => match event {
                RelayEventView::Read(outcome) => if outcome.has_data() {
                    (
                        self.at(RelayPhase::WritingLocal),
                        RelayActionView::WriteLocal(outcome->Data_0),
                    )
                } else if outcome.is_terminal() {
                    self.close()
                } else {
                    self.settle()
                },
                _ => self.settle(),
            },
            RelayPhase::WritingLocal => match event {
                RelayEventView::WriteFailed => self.close(),
                _ => RelayView { activity: true, ..self }.settle(),
            },
            RelayPhase::Sleeping => self.begin(),
            RelayPhase::Closed => (self, RelayActionView::Stop),
        }
    }

    /// The relay after the given events, one after the other.
    pub open spec fn after(self, events: Seq<RelayEventView>) -> RelayView
        decreases events.len(),
    {
        if events.len() == 0 {
            self
        } else {
            self.after(events.drop_last()).step(events.last()).0
        }
    }

    /// The actions that the relay asks for in answer to the given events.
    pub open spec fn actions(self, events: Seq<RelayEventView>) -> Seq<RelayActionView>
        decreases events.len(),
    {
        if events.len() == 0 {
            Seq::empty()
        } else {
            self.actions(events.drop_last()).push(
                self.after(events.drop_last()).step(events.last()).1,
            )
        }
    }
}

/// The decisions of the relay of one accepted connection.
pub struct Relay {
    phase: RelayPhase,
    activity: bool,
    backoff: Backoff,
}

impl View for Relay {
    type V = RelayView;

    closed spec fn view(&self) -> RelayView {
        RelayView { phase: self.phase, activity: self.activity, backoff: self.backoff@ }
    }
}

impl Relay {
    /// A relay before its first step.
    pub fn new() -> (relay: Relay)
        ensures
            relay@ == RelayView::fresh(),
    {
        Relay {
            phase: RelayPhase::Idle,
            activity: false,
            backoff: Backoff::new(RELAY_BACKOFF_MIN_MS, RELAY_BACKOFF_MAX_MS),
        }
    }

    /// What the relay has asked for last.
    pub fn phase(&self) -> (phase: RelayPhase)
        ensures
            phase == self@.phase,
    {
        self.phase
    }

    /// Whether the relay has ended.
    pub fn is_closed(&self) -> (closed: bool)
        ensures
            closed == (self@.phase is Closed),
    {
        match self.phase {
            RelayPhase::Closed => true,
            _ => false,
        }
    }

    fn begin(&mut self) -> (action: RelayAction)
        ensures
            (final(self)@, action@) == old(self)@.begin(),
    {
        self.phase = RelayPhase::ReadingLocal;
        self.activity = false;
        RelayAction::ReadLocal
    }

    fn settle(&mut self) -> (action: RelayAction)
        ensures
            (final(self)@, action@) == old(self)@.settle(),
    {
        if self.activity {
            self.backoff.reset();
            self.begin()
        } else {
            let ms: u64 = self.backoff.wait();
            self.phase = RelayPhase::Sleeping;
            RelayAction::Sleep(ms)
        }
    }

    fn close(&mut self) -> (action: RelayAction)
        ensures
            (final(self)@, action@) == old(self)@.close(),
    {
        self.phase = RelayPhase::Closed;
        RelayAction::Close
    }

    /// Takes what the last action brought and names the next action.
    ///
    /// An event that does not answer the last action counts as an answer
    /// that brought nothing.
    pub fn step(&mut self, event: RelayEvent) -> (action: RelayAction)
        ensures
            (final(self)@, action@) == old(self)@.step(event@),
    {
        match self.phase {
            RelayPhase::Idle => self.begin(),
            RelayPhase::ReadingLocal => match event {
                RelayEvent::Read(ReadOutcome::Data(data)) => {
                    if data.len() > 0 {
                        self.phase = RelayPhase::WritingRemote;
                        RelayAction::WriteRemote(data)
                    } else {
                        self.phase = RelayPhase::ReadingRemote;
                        RelayAction::ReadRemote
                    }
                },
                RelayEvent::Read(ReadOutcome::Eof) => self.close(),
                RelayEvent::Read(ReadOutcome::Failed(_)) => self.close(),
                _ => {
                    self.phase = RelayPhase::ReadingRemote;
                    RelayAction::ReadRemote
                },
            },
            RelayPhase::WritingRemote => match event {
                RelayEvent::WriteFailed => self.close(),
                _ => {
                    self.phase = RelayPhase::ReadingRemote;
                    self.activity = true;
                    RelayAction::ReadRemote
                },
            },
            RelayPhase::ReadingRemote => match event {
                RelayEvent::Read(ReadOutcome::Data(data)) => {
                    if data.len() > 0 {
                        self.phase = RelayPhase::WritingLocal;
                        RelayAction::WriteLocal(data)
                    } else {
                        self.settle()
                    }
                },
                RelayEvent::Read(ReadOutcome::Eof) => self.close(),
                RelayEvent::Read(ReadOutcome::Failed(_)) => self.close(),
                _ => self.settle(),
            },
            RelayPhase::WritingLocal => match event {
                RelayEvent::WriteFailed => self.close(),
                _ => {
                    self.activity = true;
                    self.settle()
                },
            },
            RelayPhase::Sleeping => self.begin(),
            RelayPhase::Closed => RelayAction::Stop,
        }
    }
}

/// A relay that has closed stays closed and asks for nothing but to stop.
pub proof fn lemma_closed_relay_stops(r: RelayView, events: Seq<RelayEventView>)
    requires
        r.phase is Closed,
    ensures
        r.after(events) == r,
        r.actions(events).len() == events.len(),
        forall|i: int| 0 <= i < events.len() ==> r.actions(events)[i] is Stop,
    decreases events.len(),
{
    if events.len() > 0 {
        lemma_closed_relay_stops(r, events.drop_last());
    }
}

/// A relay ends as soon as either side is at its end or fails: an end of
/// stream or a failed read on the side that is being read, or a failed
/// write on the side that is being written, brings the action to close and
/// leaves the relay closed.
pub proof fn lemma_relay_ends_with_either_side(r: RelayView, outcome: ReadOutcomeView)
    requires
        outcome.is_terminal(),
    ensures
        r.phase is ReadingLocal || r.phase is ReadingRemote ==> r.step(
            RelayEventView::Read(outcome),
        ) == r.close(),
        r.phase is WritingLocal || r.phase is WritingRemote ==> r.step(RelayEventView::WriteFailed)
            == r.close(),
        r.close().0.phase is Closed,
        r.close().1 is Close,
{
}

/// Bytes pass unchanged: what the local connection gives is written to the
/// remote channel, and what the remote channel gives is written to the local
/// connection. A relay at the start of an iteration that gets `up` from the
/// local side and `down` from the remote side asks for exactly these two
/// writes, in this order, and goes on to the next iteration without a sleep.
pub proof fn lemma_relay_copies_both_ways(r: RelayView, up: Seq<u8>, down: Seq<u8>)
    requires
        r.phase is ReadingLocal,
        up.len() > 0,
        down.len() > 0,
    ensures
        ({
            let events = seq![
                RelayEventView::Read(ReadOutcomeView::Data(up)),
                RelayEventView::Tick,
                RelayEventView::Read(ReadOutcomeView::Data(down)),
                RelayEventView::Tick,
            ];
            &&& r.actions(events) == seq![
                RelayActionView::WriteRemote(up),
                RelayActionView::ReadRemote,
                RelayActionView::WriteLocal(down),
                RelayActionView::ReadLocal,
            ]
            &&& r.after(events).phase is ReadingLocal
            &&& r.after(events).backoff == r.backoff.after_reset()
        }),
{
    let events = seq![
        RelayEventView::Read(ReadOutcomeView::Data(up)),
        RelayEventView::Tick,
        RelayEventView::Read(ReadOutcomeView::Data(down)),
        RelayEventView::Tick,
    ];
    lemma_relay_unfold(r, events);
    lemma_relay_unfold(r, events.drop_last());
    lemma_relay_unfold(r, events.drop_last().drop_last());
    lemma_relay_unfold(r, events.drop_last().drop_last().drop_last());
    assert(events.drop_last().drop_last().drop_last().drop_last() =~= Seq::<
        RelayEventView,
    >::empty());
    assert(r.actions(events) =~= seq![
        RelayActionView::WriteRemote(up),
        RelayActionView::ReadRemote,
        RelayActionView::WriteLocal(down),
        RelayActionView::ReadLocal,
    ]);
}

/// An iteration in which neither side has anything ends in a sleep of the
/// current backoff interval and lengthens the next one.
pub proof fn lemma_relay_idle_iteration(r: RelayView)
    requires
        r.phase is ReadingLocal,
        !r.activity,
    ensures
        ({
            let events = seq![
                RelayEventView::Read(ReadOutcomeView::WouldBlock),
                RelayEventView::Read(ReadOutcomeView::WouldBlock),
            ];
            &&& r.actions(events) == seq![
                RelayActionView::ReadRemote,
                RelayActionView::Sleep(r.backoff.current),
            ]
            &&& r.after(events).backoff == r.backoff.after_wait()
        }),
{
    let events = seq![
        RelayEventView::Read(ReadOutcomeView::WouldBlock),
        RelayEventView::Read(ReadOutcomeView::WouldBlock),
    ];
    lemma_relay_unfold(r, events);
    lemma_relay_unfold(r, events.drop_last());
    assert(events.drop_last().drop_last() =~= Seq::<RelayEventView>::empty());
    assert(r.actions(events) =~= seq![
        RelayActionView::ReadRemote,
        RelayActionView::Sleep(r.backoff.current),
    ]);
}

proof fn lemma_relay_unfold(r: RelayView, events: Seq<RelayEventView>)
    requires
        events.len() > 0,
    ensures
        r.after(events) == r.after(events.drop_last()).step(events.last()).0,
        r.actions(events) == r.actions(events.drop_last()).push(
            r.after(events.drop_last()).step(events.last()).1,
        ),
{
}

/// What a tunnel has asked for last.
#[derive(Debug, Clone, Copy, PartialEq, Eq, Structural)]
pub enum TunnelPhase {
    /// Nothing yet.
    Idle,
    /// To bind the listener.
    Binding,
    /// To accept a connection.
    Accepting,
    /// To open a channel to the destination for the accepted connection.
    Opening,
    /// To start the relay of the connection, or to drop the connection.
    Handing,
    /// The listener could not be bound: the tunnel is done.
    Closed,
}

/// What the last action of a tunnel brought.
#[derive(Debug, PartialEq, Eq)]
pub enum TunnelEvent {
    /// The action is done.
    Tick,
    /// A connection was accepted.
    Accepted,
    /// The action failed, with the reason.
    Failed(String),
}

/// A tunnel event as plain values.
pub enum TunnelEventView {
    Tick,
    Accepted,
    Failed(Seq<char>),
}

impl View for TunnelEvent {
    type V = TunnelEventView;

    open spec fn view(&self) -> TunnelEventView {
        match *self {
            TunnelEvent::Tick => TunnelEventView::Tick,
            TunnelEvent::Accepted => TunnelEventView::Accepted,
            TunnelEvent::Failed(reason) => TunnelEventView::Failed(reason@),
        }
    }
}

/// What the caller of a tunnel has to do next.
#[derive(Debug, PartialEq, Eq)]
pub enum TunnelAction {
    /// Bind a listener on the loopback address at the given port.
    Bind { port: u16 },
    /// Wait for the next connection.
    Accept,
    /// Open a direct channel to the destination over the remote session.
    OpenChannel { host: String, port: u16 },
    /// Run a relay between the accepted connection and the opened channel,
    /// on a thread of its own.
    StartRelay,
    /// Drop the accepted connection: its destination could not be reached.
    DropConnection(SessionError),
    /// Return: the tunnel has ended.
    Stop,
}

/// A tunnel action as plain values.
pub enum TunnelActionView {
    Bind { port: u16 },
    Accept,
    OpenChannel { host: Seq<char>, port: u16 },
    StartRelay,
    DropConnection(SessionErrorView),
    Stop,
}

impl View for TunnelAction {
    type V = TunnelActionView;

    open spec fn view(&self) -> TunnelActionView {
        match *self {
            TunnelAction::Bind { port } => TunnelActionView::Bind { port },
            TunnelAction::Accept => TunnelActionView::Accept,
            TunnelAction::OpenChannel { host, port } => TunnelActionView::OpenChannel {
                host: host@,
                port,
            },
            TunnelAction::StartRelay => TunnelActionView::StartRelay,
            TunnelAction::DropConnection(error) => TunnelActionView::DropConnection(error@),
            TunnelAction::Stop => TunnelActionView::Stop,
        }
    }
}

/// The start of the message of a connection whose destination could not be
/// reached.
pub open spec fn channel_failure_prefix() -> Seq<char> {
    "Failed to create channel: "@
}

/// A tunnel as plain values.
pub struct TunnelView {
    pub target: RelayTargetView,
    pub phase: TunnelPhase,
}

impl TunnelView {
    /// A tunnel that has not begun.
    pub open spec fn fresh(target: RelayTargetView) -> TunnelView {
        TunnelView { target, phase: TunnelPhase::Idle }
    }

    /// The tunnel in another phase.
    pub open spec fn at(self, phase: TunnelPhase) -> TunnelView {
        TunnelView { phase, ..self }
    }

    /// Whether the listener is bound and serving.
    pub open spec fn listening(self) -> bool {
        self.phase is Accepting || self.phase is Opening || self.phase is Handing
    }

    /// The tunnel after `event`, and the action it asks for.
    pub open spec fn step(self, event: TunnelEventView) -> (TunnelView, TunnelActionView) {
        match self.phase {
            TunnelPhase::Idle => (
                self.at(TunnelPhase::Binding),
                TunnelActionView::Bind { port: self.target.source_port },
            ),
            TunnelPhase::Binding => match event {
                TunnelEventView::Failed(_) => (self.at(TunnelPhase::Closed), TunnelActionView::Stop),
                _ => (self.at(TunnelPhase::Accepting), TunnelActionView::Accept),
            },
            TunnelPhase::Accepting => match event {
                TunnelEventView::Accepted => (
                    self.at(TunnelPhase::Opening),
                    TunnelActionView::OpenChannel {
                        host: self.target.destination_host,
                        port: self.target.destination_port,
                    },
                ),
                _ => (self, TunnelActionView::Accept),
            },
            TunnelPhase::Opening => match event {
                TunnelEventView::Failed(reason) => (
                    self.at(TunnelPhase::Handing),
                    TunnelActionView::DropConnection(
                        SessionErrorView {
                            kind: ErrorKind::Relay,
                            message: channel_failure_prefix() + reason,
                        },
                    ),
                ),
                _ => (self.at(TunnelPhase::Handing), TunnelActionView::StartRelay),
            },
            TunnelPhase::Handing => (self.at(TunnelPhase::Accepting), TunnelActionView::Accept),
            TunnelPhase::Closed => (self, TunnelActionView::Stop),
        }
    }

    /// The tunnel after the given events, one after the other.
    pub open spec fn after(self, events: Seq<TunnelEventView>) -> TunnelView
        decreases events.len(),
    {
        if events.len() == 0 {
            self
        } else {
            self.after(events.drop_last()).step(events.last()).0
        }
    }

    /// The actions that the tunnel asks for in answer to the given events.
    pub open spec fn actions(self, events: Seq<TunnelEventView>) -> Seq<TunnelActionView>
        decreases events.len(),
    {
        if events.len() == 0 {
            Seq::empty()
        } else {
            self.actions(events.drop_last()).push(
                self.after(events.drop_last()).step(events.last()).1,
            )
        }
    }
}

/// The decisions of one tunnel listener.
pub struct Tunnel {
    target: RelayTarget,
    phase: TunnelPhase,
}

impl View for Tunnel {
    type V = TunnelView;

    closed spec fn view(&self) -> TunnelView {
        TunnelView { target: self.target@, phase: self.phase }
    }
}

impl Tunnel {
    /// A tunnel for `target`, before its first step.
    pub fn new(target: RelayTarget) -> (tunnel: Tunnel)
        ensures
            tunnel@ == TunnelView::fresh(target@),
    {
        Tunnel { target, phase: TunnelPhase::Idle }
    }

    /// What the tunnel has asked for last.
    pub fn phase(&self) -> (phase: TunnelPhase)
        ensures
            phase == self@.phase,
    {
        self.phase
    }

    /// Where the tunnel listens and where it forwards to.
    pub fn target(&self) -> (target: &RelayTarget)
        ensures
            target@ == self@.target,
    {
        &self.target
    }

    /// Takes what the last action brought and names the next action.
    ///
    /// A connection whose destination cannot be reached is dropped, and the
    /// tunnel goes on accepting.
    pub fn step(&mut self, event: TunnelEvent) -> (action: TunnelAction)
        ensures
            (final(self)@, action@) == old(self)@.step(event@),
    {
        match self.phase {
            TunnelPhase::Idle => {
                self.phase = TunnelPhase::Binding;
                TunnelAction::Bind { port: self.target.source_port }
            },
            TunnelPhase::Binding => match event {
                TunnelEvent::Failed(_) => {
                    self.phase = TunnelPhase::Closed;
                    TunnelAction::Stop
                },
                _ => {
                    self.phase = TunnelPhase::Accepting;
                    TunnelAction::Accept
                },
            },
            TunnelPhase::Accepting => match event {
                TunnelEvent::Accepted => {
                    self.phase = TunnelPhase::Opening;
                    TunnelAction::OpenChannel {
                        host: self.target.destination_host.clone(),
                        port: self.target.destination_port,
                    }
                },
                _ => TunnelAction::Accept,
            },
            TunnelPhase::Opening => match event {
                TunnelEvent::Failed(reason) => {
                    self.phase = TunnelPhase::Handing;
                    TunnelAction::DropConnection(
                        SessionError::with_detail(
                            ErrorKind::Relay,
                            "Failed to create channel: ",
                            reason.as_str(),
                        ),
                    )
                },
                _ => {
                    self.phase = TunnelPhase::Handing;
                    TunnelAction::StartRelay
                },
            },
            TunnelPhase::Handing => {
                self.phase = TunnelPhase::Accepting;
                TunnelAction::Accept
            },
            TunnelPhase::Closed => TunnelAction::Stop,
        }
    }
}

/// A tunnel that listens goes on listening, for the same target, whatever
/// happens to the connections that it accepts.
pub proof fn lemma_tunnel_keeps_listening(t: TunnelView, events: Seq<TunnelEventView>)
    requires
        t.listening(),
    ensures
        t.after(events).listening(),
        t.after(events).target == t.target,
        forall|i: int| 0 <= i < events.len() ==> !(#[trigger] t.actions(events)[i] is Stop),
        t.actions(events).len() == events.len(),
    decreases events.len(),
{
    if events.len() > 0 {
        lemma_tunnel_keeps_listening(t, events.drop_last());
    }
}

/// A destination that cannot be reached fails only the connection that
/// asked for it: the connection is dropped with a relay error, the tunnel
/// accepts the next connection, asks for a channel to the same destination,
/// and starts a relay when that channel opens.
pub proof fn lemma_tunnel_survives_unreachable_destination(t: TunnelView, reason: Seq<char>)
    requires
        t.phase is Accepting,
    ensures
        ({
            let events = seq![
                TunnelEventView::Accepted,
                TunnelEventView::Failed(reason),
                TunnelEventView::Tick,
                TunnelEventView::Accepted,
                TunnelEventView::Tick,
            ];
            let open = TunnelActionView::OpenChannel {
                host: t.target.destination_host,
                port: t.target.destination_port,
            };
            &&& t.actions(events) == seq![
                open,
                TunnelActionView::DropConnection(
                    SessionErrorView {
                        kind: ErrorKind::Relay,
                        message: channel_failure_prefix() + reason,
                    },
                ),
                TunnelActionView::Accept,
                open,
                TunnelActionView::StartRelay,
            ]
            &&& t.after(events).listening()
        }),
{
    let events = seq![
        TunnelEventView::Accepted,
        TunnelEventView::Failed(reason),
        TunnelEventView::Tick,
        TunnelEventView::Accepted,
        TunnelEventView::Tick,
    ];
    let e4 = events.drop_last();
    let e3 = e4.drop_last();
    let e2 = e3.drop_last();
    let e1 = e2.drop_last();
    lemma_tunnel_unfold(t, events);
    lemma_tunnel_unfold(t, e4);
    lemma_tunnel_unfold(t, e3);
    lemma_tunnel_unfold(t, e2);
    lemma_tunnel_unfold(t, e1);
    assert(e1.drop_last() =~= Seq::<TunnelEventView>::empty());
    let open = TunnelActionView::OpenChannel {
        host: t.target.destination_host,
        port: t.target.destination_port,
    };
    assert(t.actions(events) =~= seq![
        open,
        TunnelActionView::DropConnection(
            SessionErrorView { kind: ErrorKind::Relay, message: channel_failure_prefix() + reason },
        ),
        TunnelActionView::Accept,
        open,
        TunnelActionView::StartRelay,
    ]);
}

proof fn lemma_tunnel_unfold(t: TunnelView, events: Seq<TunnelEventView>)
    requires
        events.len() > 0,
    ensures
        t.after(events) == t.after(events.drop_last()).step(events.last()).0,
        t.actions(events) == t.actions(events.drop_last()).push(
            t.after(events.drop_last()).step(events.last()).1,
        ),
{
}

} // verus!
