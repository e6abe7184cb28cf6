//! One target of a sweep: what is probed, what came of it, and the state
//! machine that leads from the one to the other.
//!
//! The machine performs no I/O. Each step takes the result of the previous
//! action as an event and answers with the next action; the caller performs
//! it, within the time budget that the action names.

use vstd::prelude::*;
use crate::address::HostAddress;
use crate::banner::{banner_of, banner_text, probe_line, probe_line_of, ReadStatus, WriteStatus};
use crate::randomizer::{state_after, Rand, PROBE_LEN};

verus! {

/// One address to probe, with the port and the timeout of the run.
#[derive(Clone, Copy, Debug, PartialEq, Eq, Structural)]
pub struct ScanTarget {
    pub host: HostAddress,
    pub port: u16,
    /// The ceiling, in milliseconds, on the connect attempt and, on its own,
    /// on the banner exchange.
    pub timeout_ms: u64,
}

/// How an attempt to connect came to its end.
#[derive(Clone, Copy, Debug, PartialEq, Eq, Structural)]
pub enum ConnectAttempt {
    /// The handshake completed.
    Connected,
    /// The peer refused, or the network reported an error.
    Failed,
    /// The timeout elapsed first.
    TimedOut,
}

/// What a connect attempt says about the port.
#[derive(Clone, Copy, Debug, PartialEq, Eq, Structural)]
pub enum ProbeResult {
    Open,
    Closed,
}

/// A port is open exactly when the handshake completed; a refusal, an error
/// and a timeout all count as closed.
pub open spec fn probe_result(attempt: ConnectAttempt) -> ProbeResult {
    if attempt == ConnectAttempt::Connected {
        ProbeResult::Open
    } else {
        ProbeResult::Closed
    }
}

/// Classifies a connect attempt.
pub fn classify(attempt: ConnectAttempt) -> (r: ProbeResult)
    ensures
        r == probe_result(attempt),
{
    match attempt {
        ConnectAttempt::Connected => ProbeResult::Open,
        ConnectAttempt::Failed => ProbeResult::Closed,
        ConnectAttempt::TimedOut => ProbeResult::Closed,
    }
}

/// Whether a connect attempt found the port open.
pub fn is_port_open(attempt: ConnectAttempt) -> (open: bool)
    ensures
        open == (probe_result(attempt) == ProbeResult::Open),
        open == (attempt == ConnectAttempt::Connected),
{
    match classify(attempt) {
        ProbeResult::Open => true,
        ProbeResult::Closed => false,
    }
}

/// The final word on one target.
#[derive(Clone, Debug, PartialEq, Eq)]
pub enum ScanOutcome {
    /// No connection could be made in time.
    Closed,
    /// The port accepted a connection; no banner was asked for.
    Open,
    /// The port accepted a connection and a banner was asked for. The text is
    /// empty where none came or the exchange failed.
    OpenWithBanner(String),
}

/// The mathematical content of a `ScanOutcome`.
pub enum OutcomeView {
    Closed,
    Open,
    OpenWithBanner(Seq<char>),
}

impl View for ScanOutcome {
    type V = OutcomeView;

    open spec fn view(&self) -> OutcomeView {
        match self {
            ScanOutcome::Closed => OutcomeView::Closed,
            ScanOutcome::Open => OutcomeView::Open,
            ScanOutcome::OpenWithBanner(text) => OutcomeView::OpenWithBanner(text@),
        }
    }
}

impl OutcomeView {
    /// Whether the port was found open.
    pub open spec fn is_open(self) -> bool {
        !(self is Closed)
    }
}

impl ScanOutcome {
    /// Whether the port was found open.
    pub fn is_open(&self) -> (b: bool)
        ensures
            b == self@.is_open(),
    {
        match self {
            ScanOutcome::Closed => false,
            _ => true,
        }
    }
}

/// Where a target stands.
#[derive(Clone, Debug, PartialEq, Eq)]
pub enum TargetState {
    /// Enumerated, not yet dispatched.
    Pending,
    /// The connect attempt is under way.
    Probing,
    /// Connected; the probe line is being written.
    BannerWriting,
    /// The probe line is out; the reply is being read, with this many
    /// milliseconds of the banner budget left.
    BannerReading { budget_ms: u64 },
    /// Finished, with the outcome. No event changes it again.
    Done(ScanOutcome),
}

/// The mathematical content of a `TargetState`.
pub enum StateView {
    Pending,
    Probing,
    BannerWriting,
    BannerReading { budget_ms: u64 },
    Done(OutcomeView),
}

impl View for TargetState {
    type V = StateView;

    open spec fn view(&self) -> StateView {
        match self {
            TargetState::Pending => StateView::Pending,
            TargetState::Probing => StateView::Probing,
            TargetState::BannerWriting => StateView::BannerWriting,
            TargetState::BannerReading { budget_ms } => StateView::BannerReading {
                budget_ms: *budget_ms,
            },
            TargetState::Done(outcome) => StateView::Done(outcome@),
        }
    }
}

impl StateView {
    /// The number of steps that the state is away from the end, at most.
    pub open spec fn rank(self) -> nat {
        match self {
            StateView::Pending => 4,
            StateView::Probing => 3,
            StateView::BannerWriting => 2,
            StateView::BannerReading { .. } => 1,
            StateView::Done(_) => 0,
        }
    }

    /// Whether the target is being probed: it holds a unit of the concurrency
    /// budget from its dispatch to its end.
    pub open spec fn in_flight(self) -> bool {
        self is Probing || self is BannerWriting || self is BannerReading
    }

    /// Whether the state records that the port accepted a connection.
    pub open spec fn found_open(self) -> bool {
        match self {
            StateView::BannerWriting => true,
            StateView::BannerReading { .. } => true,
            StateView::Done(outcome) => outcome.is_open(),
            _ => false,
        }
    }

    /// The longest, in milliseconds, that a task in this state can still wait
    /// on the network when each of its actions keeps to its budget: a full
    /// timeout for the connect attempt, and what is left of a second one for
    /// the banner exchange.
    pub open spec fn time_left(self, timeout_ms: u64) -> nat {
        match self {
            StateView::Pending => 2 * (timeout_ms as nat),
            StateView::Probing => 2 * (timeout_ms as nat),
            StateView::BannerWriting => timeout_ms as nat,
            StateView::BannerReading { budget_ms } => budget_ms as nat,
            StateView::Done(_) => 0,
        }
    }

    /// Whether the task holds an open connection in this state.
    pub open spec fn holds_connection(self) -> bool {
        self is BannerWriting || self is BannerReading
    }

    /// Whether `event` is the one that the state waits for.
    pub open spec fn awaits(self, event: EventView) -> bool {
        match (self, event) {
            (StateView::Pending, EventView::Dispatched) => true,
            (StateView::Probing, EventView::ConnectFinished(_)) => true,
            (StateView::BannerWriting, EventView::WriteFinished { .. }) => true,
            (StateView::BannerReading { .. }, EventView::ReadFinished { .. }) => true,
            _ => false,
        }
    }
}

/// What the caller reports back to the machine.
#[derive(Clone, Debug, PartialEq, Eq)]
pub enum TargetEvent {
    /// The coordinator has dispatched the target.
    Dispatched,
    /// The connect attempt has ended.
    ConnectFinished(ConnectAttempt),
    /// The write of the probe line has ended, this many milliseconds after it
    /// began.
    WriteFinished { write: WriteStatus, elapsed_ms: u64 },
    /// The read of the reply has ended, with the bytes received until then.
    ReadFinished { read: ReadStatus, bytes: Vec<u8> },
}

/// The mathematical content of a `TargetEvent`.
pub enum EventView {
    Dispatched,
    ConnectFinished(ConnectAttempt),
    WriteFinished { write: WriteStatus, elapsed_ms: u64 },
    ReadFinished { read: ReadStatus, bytes: Seq<u8> },
}

impl View for TargetEvent {
    type V = EventView;

    open spec fn view(&self) -> EventView {
        match self {
            TargetEvent::Dispatched => EventView::Dispatched,
            TargetEvent::ConnectFinished(attempt) => EventView::ConnectFinished(*attempt),
            TargetEvent::WriteFinished { write, elapsed_ms } => EventView::WriteFinished {
                write: *write,
                elapsed_ms: *elapsed_ms,
            },
            TargetEvent::ReadFinished { read, bytes } => EventView::ReadFinished {
                read: *read,
                bytes: bytes@,
            },
        }
    }
}

/// What the machine asks of the caller.
#[derive(Clone, Debug, PartialEq, Eq)]
pub enum TargetAction {
    /// Try to connect to the target, for at most `budget_ms`.
    Connect { budget_ms: u64 },
    /// Write `line` to the connection, for at most `budget_ms`.
    Send { line: Vec<u8>, budget_ms: u64 },
    /// Read from the connection until the peer closes it, for at most
    /// `budget_ms`.
    Receive { budget_ms: u64 },
    /// The target is done: close the connection and release the budget unit.
    Close,
    /// The target is done and no connection is open: release the budget unit.
    Release,
    /// The event does not belong to the state; nothing changes.
    Ignore,
}

/// The mathematical content of a `TargetAction`.
pub enum ActionView {
    Connect { budget_ms: u64 },
    Send { line: Seq<u8>, budget_ms: u64 },
    Receive { budget_ms: u64 },
    Close,
    Release,
    Ignore,
}

impl View for TargetAction {
    type V = ActionView;

    open spec fn view(&self) -> ActionView {
        match self {
            TargetAction::Connect { budget_ms } => ActionView::Connect { budget_ms: *budget_ms },
            TargetAction::Send { line, budget_ms } => ActionView::Send {
                line: line@,
                budget_ms: *budget_ms,
            },
            TargetAction::Receive { budget_ms } => ActionView::Receive { budget_ms: *budget_ms },
            TargetAction::Close => ActionView::Close,
            TargetAction::Release => ActionView::Release,
            TargetAction::Ignore => ActionView::Ignore,
        }
    }
}

impl ActionView {
    /// The time, in milliseconds, that the action may take; zero for the
    /// actions that do not wait.
    pub open spec fn budget(self) -> nat {
        match self {
            ActionView::Connect { budget_ms } => budget_ms as nat,
            ActionView::Send { budget_ms, .. } => budget_ms as nat,
            ActionView::Receive { budget_ms } => budget_ms as nat,
            _ => 0,
        }
    }

    /// Whether the action ends the target.
    pub open spec fn ends_target(self) -> bool {
        self is Close || self is Release
    }
}

/// The mathematical content of a `TargetTask`.
pub struct TaskView {
    pub target: ScanTarget,
    pub banner_enabled: bool,
    /// The state of the task's probe generator.
    pub seed: u8,
    pub state: StateView,
}

impl TaskView {
    /// The state that `event` leads to.
    pub open spec fn next_state(self, event: EventView) -> StateView {
        match (self.state, event) {
            (StateView::Pending, EventView::Dispatched) => StateView::Probing,
            (StateView::Probing, EventView::ConnectFinished(attempt)) => {
                if attempt != ConnectAttempt::Connected {
                    StateView::Done(OutcomeView::Closed)
                } else if self.banner_enabled {
                    StateView::BannerWriting
                } else {
                    StateView::Done(OutcomeView::Open)
                }
            },
            (StateView::BannerWriting, EventView::WriteFinished { write, elapsed_ms }) => {
                if write == WriteStatus::Written && elapsed_ms < self.target.timeout_ms {
                    StateView::BannerReading {
                        budget_ms: (self.target.timeout_ms - elapsed_ms) as u64,
                    }
                } else {
                    StateView::Done(OutcomeView::OpenWithBanner(Seq::empty()))
                }
            },
            (StateView::BannerReading { .. }, EventView::ReadFinished { read, bytes }) => {
                StateView::Done(OutcomeView::OpenWithBanner(banner_of(read, bytes)))
            },
            _ => self.state,
        }
    }

    /// What `event` asks of the caller.
    pub open spec fn action(self, event: EventView) -> ActionView {
        match (self.state, event) {
            (StateView::Pending, EventView::Dispatched) => ActionView::Connect {
                budget_ms: self.target.timeout_ms,
            },
            (StateView::Probing, EventView::ConnectFinished(attempt)) => {
                if attempt != ConnectAttempt::Connected {
                    ActionView::Release
                } else if self.banner_enabled {
                    ActionView::Send {
                        line: probe_line_of(self.seed),
                        budget_ms: self.target.timeout_ms,
                    }
                } else {
                    ActionView::Close
                }
            },
            (StateView::BannerWriting, EventView::WriteFinished { write, elapsed_ms }) => {
                if write == WriteStatus::Written && elapsed_ms < self.target.timeout_ms {
                    ActionView::Receive { budget_ms: (self.target.timeout_ms - elapsed_ms) as u64 }
                } else {
                    ActionView::Close
                }
            },
            (StateView::BannerReading { .. }, EventView::ReadFinished { .. }) => ActionView::Close,
            _ => ActionView::Ignore,
        }
    }

    /// Whether `event` sends a probe line, which uses up a probe of the
    /// generator.
    pub open spec fn draws_probe(self, event: EventView) -> bool {
        self.action(event) is Send
    }

    /// The task after `event`.
    pub open spec fn step(self, event: EventView) -> TaskView {
        TaskView {
            target: self.target,
            banner_enabled: self.banner_enabled,
            seed: if self.draws_probe(event) {
                state_after(self.seed, PROBE_LEN as nat)
            } else {
                self.seed
            },
            state: self.next_state(event),
        }
    }

    /// The task after `events`, first to last.
    pub open spec fn run(self, events: Seq<EventView>) -> TaskView
        decreases events.len(),
    {
        if events.len() == 0 {
            self
        } else {
            self.step(events[0]).run(events.drop_first())
        }
    }

    /// The number of `events` that the task acts on rather than ignores.
    pub open spec fn accepted(self, events: Seq<EventView>) -> nat
        decreases events.len(),
    {
        if events.len() == 0 {
            0
        } else {
            let here: nat = if self.action(events[0]) is Ignore {
                0
            } else {
                1
            };
            here + self.step(events[0]).accepted(events.drop_first())
        }
    }

    /// The connect attempt that the task acts on in the course of `events`, if
    /// it acts on one.
    pub open spec fn connect_seen(self, events: Seq<EventView>) -> Option<ConnectAttempt>
        decreases events.len(),
    {
        if events.len() == 0 {
            None
        } else if self.state is Probing && events[0] is ConnectFinished {
            Some(events[0]->ConnectFinished_0)
        } else {
            self.step(events[0]).connect_seen(events.drop_first())
        }
    }
}

/// The life of one target, from its enumeration to its outcome.
#[derive(Clone, Debug)]
pub struct TargetTask {
    target: ScanTarget,
    banner_enabled: bool,
    rng: Rand,
    state: TargetState,
}

impl View for TargetTask {
    type V = TaskView;

    closed spec fn view(&self) -> TaskView {
        TaskView {
            target: self.target,
            banner_enabled: self.banner_enabled,
            seed: self.rng@,
            state: self.state@,
        }
    }
}

impl TargetTask {
    /// A pending task for `target`. `rng` supplies the probe if a banner is
    /// grabbed.
    pub fn new(target: ScanTarget, banner_enabled: bool, rng: Rand) -> (task: Self)
        ensures
            task@ == (TaskView {
                target,
                banner_enabled,
                seed: rng@,
                state: StateView::Pending,
            }),
    {
        TargetTask { target, banner_enabled, rng, state: TargetState::Pending }
    }

    /// The target of the task.
    pub fn target(&self) -> (t: ScanTarget)
        ensures
            t == self@.target,
    {
        self.target
    }

    /// Where the task stands.
    pub fn state(&self) -> (s: &TargetState)
        ensures
            s@ == self@.state,
    {
        &self.state
    }

    /// The outcome, once the task is done.
    pub fn outcome(&self) -> (o: Option<&ScanOutcome>)
        ensures
            match o {
                Some(outcome) => self@.state == StateView::Done(outcome@),
                None => !(self@.state is Done),
            },
    {
        match &self.state {
            TargetState::Done(outcome) => Some(outcome),
            _ => None,
        }
    }

    /// Takes `event` and answers with the action that follows from it. An
    /// event that does not belong to the current state is ignored.
    pub fn step(&mut self, event: TargetEvent) -> (action: TargetAction)
        ensures
            final(self)@ == old(self)@.step(event@),
            action@ == old(self)@.action(event@),
    {
        let timeout_ms: u64 = self.target.timeout_ms;
        match event {
            TargetEvent::Dispatched => {
                if let TargetState::Pending = self.state {
                    self.state = TargetState::Probing;
                    return TargetAction::Connect { budget_ms: timeout_ms };
                }
            },
            TargetEvent::ConnectFinished(attempt) => {
                if let TargetState::Probing = self.state {
                    match attempt {
                        ConnectAttempt::Connected => {
                            if self.banner_enabled {
                                let line: Vec<u8> = probe_line(&mut self.rng);
                                self.state = TargetState::BannerWriting;
                                return TargetAction::Send { line, budget_ms: timeout_ms };
                            } else {
                                self.state = TargetState::Done(ScanOutcome::Open);
                                return TargetAction::Close;
                            }
                        },
                        _ => {
                            self.state = TargetState::Done(ScanOutcome::Closed);
                            return TargetAction::Release;
                        },
                    }
                }
            },
            TargetEvent::WriteFinished { write, elapsed_ms } => {
                if let TargetState::BannerWriting = self.state {
                    match write {
                        WriteStatus::Written => {
                            if elapsed_ms < timeout_ms {
                                let budget_ms: u64 = timeout_ms - elapsed_ms;
                                self.state = TargetState::BannerReading { budget_ms };
                                return TargetAction::Receive { budget_ms };
                            }
                        },
                        _ => {},
                    }
                    self.state = TargetState::Done(ScanOutcome::OpenWithBanner(String::new()));
                    return TargetAction::Close;
                }
            },
            TargetEvent::ReadFinished { read, bytes } => {
                if let TargetState::BannerReading { .. } = self.state {
                    let text: String = banner_text(read, &bytes);
                    self.state = TargetState::Done(ScanOutcome::OpenWithBanner(text));
                    return TargetAction::Close;
                }
            },
        }
        TargetAction::Ignore
    }
}

/// Every event either moves a task strictly closer to its end or changes
/// nothing. The event that a state waits for is never ignored, a finished task
/// ignores everything, and no action may take longer than the target's timeout.
pub proof fn lemma_step_makes_progress(task: TaskView, event: EventView)
    ensures
        task.action(event) is Ignore <==> task.step(event) == task,
        task.action(event) is Ignore <==> !task.state.awaits(event),
        !(task.action(event) is Ignore) ==> task.step(event).state.rank() < task.state.rank(),
        task.step(event).state is Done <==> task.state is Done || task.action(event).ends_target(),
        task.state is Done ==> task.action(event) is Ignore,
        task.action(event).budget() <= task.target.timeout_ms,
        task.step(event).target == task.target,
        task.step(event).banner_enabled == task.banner_enabled,
{
}

/// A connection is closed on every path on which its task ends, and a banner
/// is grabbed only on a connection that the probe has just opened: a task ends
/// with `Close` exactly where a connection is open, the probe line goes out
/// only in answer to a completed handshake with banners enabled, and the read
/// only follows the write.
pub proof fn lemma_connection_closed_on_every_exit(task: TaskView, event: EventView)
    ensures
        task.action(event).ends_target() ==> (task.action(event) is Close
            <==> task.state.holds_connection() || event == EventView::ConnectFinished(
            ConnectAttempt::Connected,
        )),
        task.step(event).state.holds_connection() ==> !task.action(event).ends_target(),
        task.action(event) is Send ==> {
            &&& task.state is Probing
            &&& event == EventView::ConnectFinished(ConnectAttempt::Connected)
            &&& task.banner_enabled
            &&& task.action(event)->line == probe_line_of(task.seed)
        },
        task.action(event) is Receive ==> task.state is BannerWriting,
{
}

/// With banners disabled none is ever grabbed: whatever events it is fed, a
/// task that starts out pending sends no probe line and ends, if it ends,
/// closed or plainly open.
pub proof fn lemma_no_banner_when_disabled(task: TaskView, events: Seq<EventView>)
    requires
        !task.banner_enabled,
        task.state is Pending || task.state is Probing || task.state == StateView::Done(
            OutcomeView::Closed,
        ) || task.state == StateView::Done(OutcomeView::Open),
    ensures
        !task.run(events).state.holds_connection(),
        task.run(events).state matches StateView::Done(outcome) ==> !(outcome
            is OpenWithBanner),
        task.run(events).seed == task.seed,
    decreases events.len(),
{
    if events.len() > 0 {
        lemma_no_banner_when_disabled(task.step(events[0]), events.drop_first());
    }
}

/// The write and the read of a banner share one budget: the time that the
/// write took and the time that the read may take add up to the timeout.
pub proof fn lemma_banner_budget_is_shared(task: TaskView, write: WriteStatus, elapsed_ms: u64)
    requires
        task.state is BannerWriting,
    ensures
        match task.action(EventView::WriteFinished { write, elapsed_ms }) {
            ActionView::Receive { budget_ms } => elapsed_ms + budget_ms == task.target.timeout_ms,
            other => other is Close,
        },
{
}

/// No task waits past its ceilings. The time that a task can still spend
/// waiting never grows; the connect attempt uses up one timeout of it, and the
/// time that the write of the probe line took comes off what the read may
/// take. So a task that is dispatched is done within two timeouts of waiting,
/// one where banners are disabled.
pub proof fn lemma_time_left_shrinks(task: TaskView, event: EventView)
    ensures
        task.step(event).state.time_left(task.target.timeout_ms) <= task.state.time_left(
            task.target.timeout_ms,
        ),
        task.action(event).budget() <= task.state.time_left(task.target.timeout_ms),
        task.state is Probing && !(task.action(event) is Ignore) ==> task.step(
            event,
        ).state.time_left(task.target.timeout_ms) + task.target.timeout_ms
            <= task.state.time_left(task.target.timeout_ms),
        task.state is Probing && !task.banner_enabled && !(task.action(event) is Ignore)
            ==> task.step(event).state is Done,
        task.state is BannerWriting ==> (event matches EventView::WriteFinished {
            elapsed_ms,
            ..
        } ==> task.step(event).state.time_left(task.target.timeout_ms) + elapsed_ms
            <= task.state.time_left(task.target.timeout_ms) || task.step(event).state is Done),
{
}

/// A task reaches its end within four events that it acts on, three once it
/// is dispatched: over any run, the rank that is left and the events acted on
/// never exceed the rank at the start.
pub proof fn lemma_task_ends_within_rank(task: TaskView, events: Seq<EventView>)
    ensures
        task.run(events).state.rank() + task.accepted(events) <= task.state.rank(),
        task.run(events).target == task.target,
        task.accepted(events) == task.state.rank() ==> task.run(events).state is Done,
    decreases events.len(),
{
    if events.len() > 0 {
        lemma_step_makes_progress(task, events[0]);
        lemma_task_ends_within_rank(task.step(events[0]), events.drop_first());
    }
}

/// Once a port is known to be open it stays so, and a closed verdict stands:
/// no event revises what the connect attempt has settled.
pub proof fn lemma_verdict_is_final(task: TaskView, events: Seq<EventView>)
    ensures
        task.state.found_open() ==> task.run(events).state.found_open(),
        task.state is Done ==> task.run(events) == task,
    decreases events.len(),
{
    if events.len() > 0 {
        lemma_step_makes_progress(task, events[0]);
        lemma_verdict_is_final(task.step(events[0]), events.drop_first());
    }
}

/// Whether a target is found open is settled by its connect attempt alone: a
/// task that has got past probing has acted on one attempt, and holds the port
/// open exactly if that attempt connected. The banner setting, the probe sent
/// and what the peer answered have no part in it.
pub proof fn lemma_open_iff_connected(task: TaskView, events: Seq<EventView>)
    requires
        task.state is Pending || task.state is Probing,
        task.run(events).state.rank() < 3,
    ensures
        task.connect_seen(events) is Some,
        task.run(events).state.found_open() <==> task.connect_seen(events)
            == Some(ConnectAttempt::Connected),
    decreases events.len(),
{
    if events.len() > 0 {
        let next = task.step(events[0]);
        if task.state is Probing && events[0] is ConnectFinished {
            lemma_verdict_is_final(next, events.drop_first());
            if !next.state.found_open() {
                assert(next.state is Done);
            }
        } else {
            lemma_open_iff_connected(next, events.drop_first());
        }
    }
}

/// Two sweeps of one target agree on whether it is open whenever their connect
/// attempts ended alike, whatever else differed between them: the banner
/// setting, the probes drawn, the replies, the order and number of events.
pub proof fn lemma_same_attempt_same_verdict(
    first: TaskView,
    second: TaskView,
    first_events: Seq<EventView>,
    second_events: Seq<EventView>,
)
    requires
        first.state is Pending,
        second.state is Pending,
        first.run(first_events).state is Done,
        second.run(second_events).state is Done,
        probe_result(first.connect_seen(first_events)->0) == probe_result(
            second.connect_seen(second_events)->0,
        ),
    ensures
        first.run(first_events).state->Done_0.is_open() == second.run(
            second_events,
        ).state->Done_0.is_open(),
{
    lemma_open_iff_connected(first, first_events);
    lemma_open_iff_connected(second, second_events);
}

} // verus!
