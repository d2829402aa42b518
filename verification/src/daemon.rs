//! The scheduler: one inquiry at once when it starts, then one per tick of a
//! periodic timer, for ever and strictly one after the other.
//!
//! The scheduler is a state machine. Its driver owns the timer and runs the
//! inquiries; it hands each thing that happened to `Scheduler::step` and
//! performs the command that comes back.

use crate::models::{Timestamp, MAX_LOCAL_SECS};
use crate::supervisor::{Outcome, OutcomeView};
use crate::text::{decimal, decimal_text};
use vstd::prelude::*;
use vstd::string::*;

verus! {

/// Where the scheduler stands between two events.
#[derive(Clone, Copy, Debug, PartialEq, Eq, Structural)]
pub enum Phase {
    /// Nothing has run yet.
    NotStarted,
    /// An inquiry is running; no other may start.
    Inquiring,
    /// The last inquiry has returned; the next tick starts another.
    Sleeping,
}

/// What the driver observed.
#[derive(Debug)]
pub enum DaemonEvent {
    /// The daemon has started.
    Start,
    /// The running inquiry has returned, with this outcome.
    InquiryFinished(Outcome),
    /// The periodic timer has ticked, at this time.
    Tick(Timestamp),
}

pub enum DaemonEventView {
    Start,
    InquiryFinished(OutcomeView),
    Tick(Timestamp),
}

impl View for DaemonEvent {
    type V = DaemonEventView;

    open spec fn view(&self) -> DaemonEventView {
        match *self {
            DaemonEvent::Start => DaemonEventView::Start,
            DaemonEvent::InquiryFinished(outcome) => DaemonEventView::InquiryFinished(outcome@),
            DaemonEvent::Tick(now) => DaemonEventView::Tick(now),
        }
    }
}

/// What the driver has to do next.
#[derive(Clone, Copy, Debug, PartialEq, Eq, Structural)]
pub enum DaemonCommand {
    /// Run one bounded inquiry, the `round`-th since the start, and hand
    /// back its outcome.
    RunInquiry { round: u64 },
    /// Report the round that has ended and wait for the next tick.
    /// `launched` is false when the inquiry could not even be started.
    /// `next_inquiry` is the advisory time of the next round; the first
    /// round has none, nor has a time beyond the supported years.
    AwaitTick { round: u64, launched: bool, next_inquiry: Option<Timestamp> },
    /// The event does not belong to this phase and changes nothing.
    Ignore,
}

/// The scheduler's state, as mathematical values.
pub struct SchedulerView {
    pub interval_minutes: u64,
    /// The inquiries started so far.
    pub inquiry_count: nat,
    pub phase: Phase,
    /// The time of the tick that started the running round.
    pub tick_time: Option<Timestamp>,
}

/// The state of the daemon's loop.
#[derive(Debug)]
pub struct Scheduler {
    interval_minutes: u64,
    inquiry_count: u64,
    phase: Phase,
    tick_time: Option<Timestamp>,
}

/// The instant `minutes` after `ts`, in the same offset, as long as it stays
/// within the supported years.
pub open spec fn minutes_later(ts: Timestamp, minutes: u64) -> Option<Timestamp> {
    if ts.wf() && ts.secs + ts.offset + 60 * minutes <= MAX_LOCAL_SECS {
        Some(Timestamp { secs: (ts.secs + 60 * minutes) as i64, nanos: ts.nanos, offset: ts.offset })
    } else {
        None
    }
}

/// The state before anything has happened.
pub open spec fn initial(interval_minutes: u64) -> SchedulerView {
    SchedulerView {
        interval_minutes,
        inquiry_count: 0,
        phase: Phase::NotStarted,
        tick_time: None,
    }
}

/// The transition table: the state and the command that follow `event` in `state`.
pub open spec fn transition(state: SchedulerView, event: DaemonEventView) -> (
    SchedulerView,
    DaemonCommand,
) {
    match (state.phase, event) {
        (Phase::NotStarted, DaemonEventView::Start) => (
            SchedulerView { inquiry_count: 1, phase: Phase::Inquiring, tick_time: None, ..state },
            DaemonCommand::RunInquiry { round: 1 },
        ),
        (Phase::Inquiring, DaemonEventView::InquiryFinished(outcome)) => (
            SchedulerView { phase: Phase::Sleeping, tick_time: None, ..state },
            DaemonCommand::AwaitTick {
                round: state.inquiry_count as u64,
                launched: !(outcome is LaunchError),
                next_inquiry: match state.tick_time {
                    Some(at) => minutes_later(at, state.interval_minutes),
                    None => None,
                },
            },
        ),
        (Phase::Sleeping, DaemonEventView::Tick(now)) => (
            SchedulerView {
                inquiry_count: state.inquiry_count + 1,
                phase: Phase::Inquiring,
                tick_time: Some(now),
                ..state
            },
            DaemonCommand::RunInquiry { round: (state.inquiry_count + 1) as u64 },
        ),
        _ => (state, DaemonCommand::Ignore),
    }
}

/// The state after all of `events`, taken in order.
pub open spec fn run(state: SchedulerView, events: Seq<DaemonEventView>) -> SchedulerView
    decreases events.len(),
{
    if events.len() == 0 {
        state
    } else {
        run(transition(state, events[0]).0, events.drop_first())
    }
}

/// How many inquiries `events`, taken in order, make the scheduler start.
pub open spec fn inquiries_started(state: SchedulerView, events: Seq<DaemonEventView>) -> nat
    decreases events.len(),
{
    if events.len() == 0 {
        0
    } else {
        let step = transition(state, events[0]);
        let here: nat = if step.1 is RunInquiry {
            1
        } else {
            0
        };
        here + inquiries_started(step.0, events.drop_first())
    }
}

/// How many of `events` are ticks of the timer.
pub open spec fn ticks(events: Seq<DaemonEventView>) -> nat
    decreases events.len(),
{
    if events.len() == 0 {
        0
    } else {
        let here: nat = if events[0] is Tick {
            1
        } else {
            0
        };
        here + ticks(events.drop_first())
    }
}

/// `events` follow the daemon's loop: each comes in a phase that takes it.
pub open spec fn in_order(state: SchedulerView, events: Seq<DaemonEventView>) -> bool
    decreases events.len(),
{
    if events.len() == 0 {
        true
    } else {
        let step = transition(state, events[0]);
        step.1 != DaemonCommand::Ignore && in_order(step.0, events.drop_first())
    }
}

/// Adds `minutes` to `ts`; `None` when the sum leaves the supported years.
pub fn add_minutes(ts: Timestamp, minutes: u64) -> (r: Option<Timestamp>)
    ensures
        r == minutes_later(ts, minutes),
{
    if !ts.is_valid() || minutes > 6_000_000_000 {
        return None;
    }
    let delta: i64 = (minutes * 60) as i64;
    let secs: i64 = ts.secs + delta;
    if secs + ts.offset as i64 <= MAX_LOCAL_SECS {
        Some(Timestamp { secs, nanos: ts.nanos, offset: ts.offset })
    } else {
        None
    }
}

impl View for Scheduler {
    type V = SchedulerView;

    closed spec fn view(&self) -> SchedulerView {
        SchedulerView {
            interval_minutes: self.interval_minutes,
            inquiry_count: self.inquiry_count as nat,
            phase: self.phase,
            tick_time: self.tick_time,
        }
    }
}

impl Scheduler {
    /// A scheduler for one inquiry every `interval_minutes` minutes.
    pub fn new(interval_minutes: u64) -> (s: Scheduler)
        requires
            interval_minutes > 0,
        ensures
            s@ == initial(interval_minutes),
    {
        Scheduler { interval_minutes, inquiry_count: 0, phase: Phase::NotStarted, tick_time: None }
    }

    /// The inquiries started so far.
    pub fn inquiry_count(&self) -> (n: u64)
        ensures
            n == self@.inquiry_count,
    {
        self.inquiry_count
    }

    /// The phase the scheduler is in.
    pub fn phase(&self) -> (p: Phase)
        ensures
            p == self@.phase,
    {
        self.phase
    }

    /// The period of the timer, in minutes.
    pub fn interval_minutes(&self) -> (m: u64)
        ensures
            m == self@.interval_minutes,
    {
        self.interval_minutes
    }

    /// Takes one event and says what to do next, as `transition` lays down.
    pub fn step(&mut self, event: DaemonEvent) -> (command: DaemonCommand)
        requires
            old(self)@.inquiry_count < u64::MAX,
        ensures
            (final(self)@, command) == transition(old(self)@, event@),
    {
        match (self.phase, event) {
            (Phase::NotStarted, DaemonEvent::Start) => {
                self.inquiry_count = 1;
                self.phase = Phase::Inquiring;
                self.tick_time = None;
                DaemonCommand::RunInquiry { round: 1 }
            },
            (Phase::Inquiring, DaemonEvent::InquiryFinished(outcome)) => {
                let launched: bool = match outcome {
                    Outcome::LaunchError(_) => false,
                    _ => true,
                };
                let next_inquiry: Option<Timestamp> = match self.tick_time {
                    Some(at) => add_minutes(at, self.interval_minutes),
                    None => None,
                };
                self.phase = Phase::Sleeping;
                self.tick_time = None;
                DaemonCommand::AwaitTick { round: self.inquiry_count, launched, next_inquiry }
            },
            (Phase::Sleeping, DaemonEvent::Tick(now)) => {
                self.inquiry_count = self.inquiry_count + 1;
                self.phase = Phase::Inquiring;
                self.tick_time = Some(now);
                DaemonCommand::RunInquiry { round: self.inquiry_count }
            },
            _ => DaemonCommand::Ignore,
        }
    }
}

proof fn lemma_started_counts_ticks(state: SchedulerView, events: Seq<DaemonEventView>)
    requires
        in_order(state, events),
        state.phase == Phase::NotStarted ==> state.inquiry_count == 0,
    ensures
        state.phase != Phase::NotStarted ==> inquiries_started(state, events) == ticks(events),
        state.phase == Phase::NotStarted && events.len() > 0 ==> inquiries_started(state, events)
            == ticks(events) + 1,
        run(state, events).inquiry_count == state.inquiry_count + inquiries_started(state, events),
        events.len() > 0 ==> run(state, events).phase != Phase::NotStarted,
    decreases events.len(),
{
    if events.len() > 0 {
        lemma_started_counts_ticks(transition(state, events[0]).0, events.drop_first());
    }
}

/// With the immediate first inquiry, a run of the daemon that has seen N
/// ticks of its timer has started exactly N + 1 inquiries, whatever their
/// outcomes were, and its count of inquiries says so.
pub proof fn lemma_one_inquiry_per_tick_and_one_at_start(
    interval_minutes: u64,
    events: Seq<DaemonEventView>,
)
    requires
        events.len() > 0,
        in_order(initial(interval_minutes), events),
    ensures
        inquiries_started(initial(interval_minutes), events) == ticks(events) + 1,
        run(initial(interval_minutes), events).inquiry_count == ticks(events) + 1,
{
    lemma_started_counts_ticks(initial(interval_minutes), events);
}

/// Inquiries never overlap: while one is running, no event makes the
/// scheduler start another, and a tick that comes then is dropped.
pub proof fn lemma_inquiries_are_serialized(state: SchedulerView, event: DaemonEventView)
    requires
        state.phase == Phase::Inquiring,
    ensures
        !(transition(state, event).1 is RunInquiry),
        event is Tick ==> transition(state, event) == (state, DaemonCommand::Ignore),
{
}

/// No outcome of an inquiry stops or diverts the loop: whatever it was, the
/// scheduler goes on to wait for the next tick, in the same state.
pub proof fn lemma_outcome_never_stops_the_loop(
    state: SchedulerView,
    first: OutcomeView,
    second: OutcomeView,
)
    requires
        state.phase == Phase::Inquiring,
    ensures
        transition(state, DaemonEventView::InquiryFinished(first)).0 == transition(
            state,
            DaemonEventView::InquiryFinished(second),
        ).0,
        transition(state, DaemonEventView::InquiryFinished(first)).0.phase == Phase::Sleeping,
        transition(state, DaemonEventView::InquiryFinished(first)).1 is AwaitTick,
{
}

/// The line that tells the configured interval.
pub open spec fn interval_line_text(minutes: u64) -> Seq<char> {
    "\u{23f0} Intervalo configurado: "@ + crate::config::interval_text(minutes as nat)
}

/// Words the configured interval for the daemon's greeting.
pub fn interval_line(minutes: u64) -> (line: String)
    ensures
        line@ == interval_line_text(minutes),
{
    let mut line = String::from_str("\u{23f0} Intervalo configurado: ");
    let wording = crate::config::AppConfig::format_interval_static(minutes);
    line.append(wording.as_str());
    line
}

/// The line that announces the first inquiry, started at `now`.
pub open spec fn first_inquiry_text(now: Timestamp) -> Seq<char> {
    "\u{1f4dd} Executando primeiro inquérito... ("@ + now.clock_text_spec() + ")"@
}

/// The line that announces the inquiry of a later round, started at `now`.
pub open spec fn round_text(round: u64, now: Timestamp) -> Seq<char> {
    "\u{23f0} Hora do inquérito #"@ + decimal_text(round as nat) + " ("@ + now.clock_text_spec()
        + ")"@
}

/// The line that reports how the inquiry of a round went: that it is done,
/// or, where it could not be started, why not. The first round has a
/// wording of its own.
pub open spec fn result_text(round: u64, outcome: OutcomeView) -> Seq<char> {
    match outcome {
        OutcomeView::LaunchError(message) => if round == 1 {
            "\u{274c} Erro no inquérito inicial: "@ + message
        } else {
            "\u{274c} Erro no inquérito #"@ + decimal_text(round as nat) + ": "@ + message
        },
        _ => if round == 1 {
            "\u{2705} Primeiro inquérito concluído!"@
        } else {
            "\u{2705} Inquérito #"@ + decimal_text(round as nat) + " concluído com sucesso!"@
        },
    }
}

/// The line that tells the advisory time of the next inquiry.
pub open spec fn next_inquiry_text(next: Timestamp) -> Seq<char> {
    "\u{1f4c5} Próximo inquérito em: "@ + next.clock_text_spec()
}

/// Words the announcement of the first inquiry.
pub fn first_inquiry_line(now: Timestamp) -> (line: String)
    requires
        now.wf(),
    ensures
        line@ == first_inquiry_text(now),
{
    let mut line = String::from_str("\u{1f4dd} Executando primeiro inquérito... (");
    let clock = now.clock_text();
    line.append(clock.as_str());
    line.append(")");
    line
}

/// Words the announcement of the inquiry of a later round.
pub fn round_line(round: u64, now: Timestamp) -> (line: String)
    requires
        now.wf(),
    ensures
        line@ == round_text(round, now),
{
    let mut line = String::from_str("\u{23f0} Hora do inquérito #");
    let number = decimal(round);
    line.append(number.as_str());
    line.append(" (");
    let clock = now.clock_text();
    line.append(clock.as_str());
    line.append(")");
    line
}

/// Words the report of how the inquiry of a round went.
pub fn result_line(round: u64, outcome: &Outcome) -> (line: String)
    ensures
        line@ == result_text(round, outcome@),
{
    match outcome {
        Outcome::LaunchError(message) => {
            if round == 1 {
                let mut line = String::from_str("\u{274c} Erro no inquérito inicial: ");
                line.append(message.as_str());
                line
            } else {
                let mut line = String::from_str("\u{274c} Erro no inquérito #");
                let number = decimal(round);
                line.append(number.as_str());
                line.append(": ");
                line.append(message.as_str());
                line
            }
        },
        _ => {
            if round == 1 {
                String::from_str("\u{2705} Primeiro inquérito concluído!")
            } else {
                let mut line = String::from_str("\u{2705} Inquérito #");
                let number = decimal(round);
                line.append(number.as_str());
                line.append(" concluído com sucesso!");
                line
            }
        },
    }
}

/// Words the advisory time of the next inquiry.
pub fn next_inquiry_line(next: Timestamp) -> (line: String)
    requires
        next.wf(),
    ensures
        line@ == next_inquiry_text(next),
{
    let mut line = String::from_str("\u{1f4c5} Próximo inquérito em: ");
    let clock = next.clock_text();
    line.append(clock.as_str());
    line
}

} // verus!
