//! One bounded inquiry: launch the unit, race it against a timer, terminate
//! it on overrun, and classify how it ended.
//!
//! The supervisor is a state machine. Its driver performs each `Command`
//! (spawning, waiting, killing) and hands back what it observed as an `Event`;
//! every decision is taken here.

use crate::text::{signed_decimal, signed_decimal_text};
use vstd::prelude::*;
use vstd::string::*;

verus! {

/// The wall-clock budget of one inquiry, in seconds.
pub const INQUIRY_TIMEOUT_SECS: u64 = 300;

/// The exit code reported for a unit that ended without one.
pub const NO_EXIT_CODE: i32 = -1;

/// How a unit that ran to its end failed.
#[derive(Debug)]
pub enum ExitInfo {
    /// It exited with this status, or with `NO_EXIT_CODE` when it had none.
    Code(i32),
    /// Waiting for it failed, for the given cause.
    WaitError(String),
}

/// How one bounded inquiry ended. None of these stops the scheduler.
#[derive(Debug)]
pub enum Outcome {
    /// The unit ended by itself with a clean exit.
    Success,
    /// The unit ended by itself, but not cleanly.
    Failed(ExitInfo),
    /// The unit overran its budget and was terminated.
    TimedOut,
    /// The unit could not be started; the text says why.
    LaunchError(String),
}

pub enum ExitInfoView {
    Code(i32),
    WaitError(Seq<char>),
}

pub enum OutcomeView {
    Success,
    Failed(ExitInfoView),
    TimedOut,
    LaunchError(Seq<char>),
}

impl View for ExitInfo {
    type V = ExitInfoView;

    open spec fn view(&self) -> ExitInfoView {
        match *self {
            ExitInfo::Code(code) => ExitInfoView::Code(code),
            ExitInfo::WaitError(cause) => ExitInfoView::WaitError(cause@),
        }
    }
}

impl View for Outcome {
    type V = OutcomeView;

    open spec fn view(&self) -> OutcomeView {
        match *self {
            Outcome::Success => OutcomeView::Success,
            Outcome::Failed(info) => OutcomeView::Failed(info@),
            Outcome::TimedOut => OutcomeView::TimedOut,
            Outcome::LaunchError(cause) => OutcomeView::LaunchError(cause@),
        }
    }
}

/// What the driver observed.
#[derive(Debug)]
pub enum Event {
    /// A bounded inquiry is asked for.
    Start,
    /// The unit was launched.
    Launched,
    /// The program to launch could not be found, for the given cause.
    ExecutableNotFound(String),
    /// The unit could not be launched, for the given cause.
    LaunchFailed(String),
    /// The unit ended by itself before the timer fired.
    Exited { success: bool, code: Option<i32> },
    /// Waiting for the unit failed before the timer fired.
    WaitFailed(String),
    /// The timer fired before the unit ended.
    TimerFired,
    /// The attempt to terminate the unit has returned, whatever its result.
    Terminated,
}

pub enum EventView {
    Start,
    Launched,
    ExecutableNotFound(Seq<char>),
    LaunchFailed(Seq<char>),
    Exited { success: bool, code: Option<i32> },
    WaitFailed(Seq<char>),
    TimerFired,
    Terminated,
}

impl View for Event {
    type V = EventView;

    open spec fn view(&self) -> EventView {
        match *self {
            Event::Start => EventView::Start,
            Event::Launched => EventView::Launched,
            Event::ExecutableNotFound(cause) => EventView::ExecutableNotFound(cause@),
            Event::LaunchFailed(cause) => EventView::LaunchFailed(cause@),
            Event::Exited { success, code } => EventView::Exited { success, code },
            Event::WaitFailed(cause) => EventView::WaitFailed(cause@),
            Event::TimerFired => EventView::TimerFired,
            Event::Terminated => EventView::Terminated,
        }
    }
}

/// What the driver has to do next.
#[derive(Clone, Copy, Debug, PartialEq, Eq, Structural)]
pub enum Command {
    /// Launch the inquiry as a unit of its own.
    Launch,
    /// Wait until the unit ends or `timeout_secs` have passed.
    Await { timeout_secs: u64 },
    /// Terminate the unit by force, also if it has ended meanwhile.
    Terminate,
    /// The inquiry is over: read the outcome.
    Report,
    /// The event does not belong to this state and changes nothing.
    Ignore,
}

/// The state of one bounded inquiry.
#[derive(Debug)]
pub enum Supervisor {
    Idle,
    Launching,
    Waiting,
    Terminating,
    Finished(Outcome),
}

pub enum SupervisorView {
    Idle,
    Launching,
    Waiting,
    Terminating,
    Finished(OutcomeView),
}

impl View for Supervisor {
    type V = SupervisorView;

    open spec fn view(&self) -> SupervisorView {
        match *self {
            Supervisor::Idle => SupervisorView::Idle,
            Supervisor::Launching => SupervisorView::Launching,
            Supervisor::Waiting => SupervisorView::Waiting,
            Supervisor::Terminating => SupervisorView::Terminating,
            Supervisor::Finished(outcome) => SupervisorView::Finished(outcome@),
        }
    }
}

/// The outcome of a launch that failed because the program was not found.
pub open spec fn executable_not_found(cause: Seq<char>) -> OutcomeView {
    OutcomeView::LaunchError("Não foi possível obter caminho do executável: "@ + cause)
}

/// The outcome of a launch that failed.
pub open spec fn launch_failed(cause: Seq<char>) -> OutcomeView {
    OutcomeView::LaunchError("Erro ao iniciar processo de inquérito: "@ + cause)
}

/// The outcome of a unit that ended by itself.
pub open spec fn exit_outcome(success: bool, code: Option<i32>) -> OutcomeView {
    if success {
        OutcomeView::Success
    } else {
        match code {
            Some(c) => OutcomeView::Failed(ExitInfoView::Code(c)),
            None => OutcomeView::Failed(ExitInfoView::Code(NO_EXIT_CODE)),
        }
    }
}

/// The transition table: the state and the command that follow `event` in `state`.
pub open spec fn transition(state: SupervisorView, event: EventView) -> (SupervisorView, Command) {
    match (state, event) {
        (SupervisorView::Idle, EventView::Start) => (SupervisorView::Launching, Command::Launch),
        (SupervisorView::Launching, EventView::Launched) => (
            SupervisorView::Waiting,
            Command::Await { timeout_secs: INQUIRY_TIMEOUT_SECS },
        ),
        (SupervisorView::Launching, EventView::ExecutableNotFound(cause)) => (
            SupervisorView::Finished(executable_not_found(cause)),
            Command::Report,
        ),
        (SupervisorView::Launching, EventView::LaunchFailed(cause)) => (
            SupervisorView::Finished(launch_failed(cause)),
            Command::Report,
        ),
        (SupervisorView::Waiting, EventView::Exited { success, code }) => (
            SupervisorView::Finished(exit_outcome(success, code)),
            Command::Report,
        ),
        (SupervisorView::Waiting, EventView::WaitFailed(cause)) => (
            SupervisorView::Finished(OutcomeView::Failed(ExitInfoView::WaitError(cause))),
            Command::Report,
        ),
        (SupervisorView::Waiting, EventView::TimerFired) => (
            SupervisorView::Terminating,
            Command::Terminate,
        ),
        (SupervisorView::Terminating, EventView::Terminated) => (
            SupervisorView::Finished(OutcomeView::TimedOut),
            Command::Report,
        ),
        (SupervisorView::Terminating, EventView::Exited { success, code }) => (
            SupervisorView::Finished(OutcomeView::TimedOut),
            Command::Report,
        ),
        (SupervisorView::Terminating, EventView::WaitFailed(cause)) => (
            SupervisorView::Finished(OutcomeView::TimedOut),
            Command::Report,
        ),
        _ => (state, Command::Ignore),
    }
}

/// An upper bound on the events that a state can still accept.
pub open spec fn events_left(state: SupervisorView) -> nat {
    match state {
        SupervisorView::Idle => 4,
        SupervisorView::Launching => 3,
        SupervisorView::Waiting => 2,
        SupervisorView::Terminating => 1,
        SupervisorView::Finished(_) => 0,
    }
}

/// The line that the log gets for an outcome.
pub open spec fn outcome_text(outcome: OutcomeView) -> Seq<char> {
    match outcome {
        OutcomeView::Success => "\u{2705} Inquérito concluído com sucesso!"@,
        OutcomeView::Failed(ExitInfoView::Code(code)) => "\u{26a0}\u{fe0f}  Inquérito terminou com código: "@
            + signed_decimal_text(code as int),
        OutcomeView::Failed(ExitInfoView::WaitError(cause)) => "\u{26a0}\u{fe0f}  Erro ao aguardar processo de inquérito: "@
            + cause,
        OutcomeView::TimedOut => "\u{26a0}\u{fe0f}  Timeout no inquérito (5 minutos). Terminando processo..."@,
        OutcomeView::LaunchError(message) => message,
    }
}

impl Outcome {
    /// Words the outcome for the log.
    pub fn describe(&self) -> (line: String)
        ensures
            line@ == outcome_text(self@),
    {
        match self {
            Outcome::Success => String::from_str("\u{2705} Inquérito concluído com sucesso!"),
            Outcome::Failed(ExitInfo::Code(code)) => {
                let mut line = String::from_str(
                    "\u{26a0}\u{fe0f}  Inquérito terminou com código: ",
                );
                let digits = signed_decimal(*code);
                line.append(digits.as_str());
                line
            },
            Outcome::Failed(ExitInfo::WaitError(cause)) => {
                let mut line = String::from_str(
                    "\u{26a0}\u{fe0f}  Erro ao aguardar processo de inquérito: ",
                );
                line.append(cause.as_str());
                line
            },
            Outcome::TimedOut => String::from_str(
                "\u{26a0}\u{fe0f}  Timeout no inquérito (5 minutos). Terminando processo...",
            ),
            Outcome::LaunchError(message) => message.clone(),
        }
    }
}

/// Classifies a unit that ended by itself: success for a clean exit, else
/// failure with its exit code, or with `NO_EXIT_CODE` when it has none.
pub fn classify_exit(success: bool, code: Option<i32>) -> (outcome: Outcome)
    ensures
        outcome@ == exit_outcome(success, code),
{
    if success {
        Outcome::Success
    } else {
        match code {
            Some(c) => Outcome::Failed(ExitInfo::Code(c)),
            None => Outcome::Failed(ExitInfo::Code(NO_EXIT_CODE)),
        }
    }
}

impl Supervisor {
    /// A supervisor that has not been asked for anything yet.
    pub fn new() -> (s: Supervisor)
        ensures
            s@ == SupervisorView::Idle,
    {
        Supervisor::Idle
    }

    /// Takes one event and says what to do next, as `transition` lays down.
    pub fn step(self, event: Event) -> (r: (Supervisor, Command))
        ensures
            (r.0@, r.1) == transition(self@, event@),
    {
        match self {
            Supervisor::Idle => match event {
                Event::Start => (Supervisor::Launching, Command::Launch),
                _ => (Supervisor::Idle, Command::Ignore),
            },
            Supervisor::Launching => match event {
                Event::Launched => (
                    Supervisor::Waiting,
                    Command::Await { timeout_secs: INQUIRY_TIMEOUT_SECS },
                ),
                Event::ExecutableNotFound(cause) => {
                    let mut message = String::from_str(
                        "Não foi possível obter caminho do executável: ",
                    );
                    message.append(cause.as_str());
                    (Supervisor::Finished(Outcome::LaunchError(message)), Command::Report)
                },
                Event::LaunchFailed(cause) => {
                    let mut message = String::from_str("Erro ao iniciar processo de inquérito: ");
                    message.append(cause.as_str());
                    (Supervisor::Finished(Outcome::LaunchError(message)), Command::Report)
                },
                _ => (Supervisor::Launching, Command::Ignore),
            },
            Supervisor::Waiting => match event {
                Event::Exited { success, code } => (
                    Supervisor::Finished(classify_exit(success, code)),
                    Command::Report,
                ),
                Event::WaitFailed(cause) => (
                    Supervisor::Finished(Outcome::Failed(ExitInfo::WaitError(cause))),
                    Command::Report,
                ),
                Event::TimerFired => (Supervisor::Terminating, Command::Terminate),
                _ => (Supervisor::Waiting, Command::Ignore),
            },
            Supervisor::Terminating => match event {
                Event::Terminated => (Supervisor::Finished(Outcome::TimedOut), Command::Report),
                Event::Exited { success, code } => (
                    Supervisor::Finished(Outcome::TimedOut),
                    Command::Report,
                ),
                Event::WaitFailed(cause) => (
                    Supervisor::Finished(Outcome::TimedOut),
                    Command::Report,
                ),
                _ => (Supervisor::Terminating, Command::Ignore),
            },
            Supervisor::Finished(outcome) => (Supervisor::Finished(outcome), Command::Ignore),
        }
    }

    /// Whether the inquiry is over.
    pub fn is_finished(&self) -> (b: bool)
        ensures
            b == (self@ is Finished),
    {
        match self {
            Supervisor::Finished(_) => true,
            _ => false,
        }
    }

    /// The outcome, once the inquiry is over.
    pub fn into_outcome(self) -> (r: Option<Outcome>)
        ensures
            match self@ {
                SupervisorView::Finished(outcome) => r matches Some(o) && o@ == outcome,
                _ => r is None,
            },
    {
        match self {
            Supervisor::Finished(outcome) => Some(outcome),
            _ => None,
        }
    }
}

/// Every event that is not ignored brings the supervisor closer to its end:
/// a bounded inquiry takes at most four events and cannot run forever.
pub proof fn lemma_supervisor_progress(state: SupervisorView, event: EventView)
    ensures
        transition(state, event).1 != Command::Ignore ==> events_left(transition(state, event).0)
            < events_left(state),
        transition(state, event).1 == Command::Ignore ==> transition(state, event).0 == state,
        state is Finished ==> transition(state, event) == (state, Command::Ignore),
{
}

/// A unit that ends by itself before the timer fires is classified by its
/// exit status alone: a clean exit is a success, any other a failure.
pub proof fn lemma_exit_is_classified(success: bool, code: Option<i32>)
    ensures
        success ==> transition(SupervisorView::Waiting, EventView::Exited { success, code }).0
            == SupervisorView::Finished(OutcomeView::Success),
        !success ==> transition(SupervisorView::Waiting, EventView::Exited { success, code }).0
            matches SupervisorView::Finished(OutcomeView::Failed(_)),
{
}

/// Once the timer has fired first, the unit is terminated by force and the
/// inquiry ends as timed out, whatever the driver observes afterwards.
pub proof fn lemma_timeout_terminates(after: EventView)
    ensures
        transition(SupervisorView::Waiting, EventView::TimerFired) == (
            SupervisorView::Terminating,
            Command::Terminate,
        ),
        transition(SupervisorView::Terminating, after).1 != Command::Ignore ==> transition(
            SupervisorView::Terminating,
            after,
        ) == (SupervisorView::Finished(OutcomeView::TimedOut), Command::Report),
        transition(SupervisorView::Terminating, EventView::Terminated).1 == Command::Report,
{
}

} // verus!
