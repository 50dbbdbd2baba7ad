//! The course of running one program: what is done for it, in which order,
//! and what is reported of it.

use crate::text::message_view;
use vstd::prelude::*;
use vstd::string::*;

verus! {

/// What is reported of a run at its end: the exit code of the program, if
/// it left one, or the reason for which the run failed.
pub type RunnerReport = Result<Option<i32>, String>;

/// Where the run of a program stands.
#[derive(Debug)]
pub enum RunnerPhase {
    /// The input file is read.
    ReadingInput,
    /// The program is started.
    Spawning,
    /// The run has failed before it was announced, for this reason.
    Failing(String),
    /// The run is announced: the clock starts.
    Announcing,
    /// The input is written to the program.
    Feeding,
    /// The program runs.
    Waiting,
    /// The output of the program, which exited with this code, is written.
    Writing(Option<i32>),
    /// The report is out.
    Done,
}

/// The state of the run of one program.
#[derive(Debug)]
pub struct RunnerState {
    /// Whether the program is given an input file.
    pub has_input: bool,
    pub phase: RunnerPhase,
}

/// What happened since the last action. A failure comes with its reason.
#[derive(Debug)]
pub enum RunnerEvent {
    /// The input file was read into memory.
    InputRead(Result<(), String>),
    /// The program was started.
    Spawned(Result<(), String>),
    /// The run was announced.
    Announced,
    /// The input was written to the program, as far as it took it.
    Fed,
    /// The program exited, with this code if it left one.
    Exited(Result<Option<i32>, String>),
    /// The output was written to the output file.
    OutputWritten(Result<(), String>),
}

/// What is to be done next for the run.
#[derive(Debug)]
pub enum RunnerAction {
    /// Read the whole input file into memory.
    ReadInput,
    /// Start the program with its arguments, its output into a pipe, and
    /// its input from a pipe if it is given an input file.
    Spawn,
    /// Tell the one who waits for the run that it is on its way.
    Announce,
    /// Write the input to the program.
    Feed,
    /// Wait until the program has exited, and collect its output.
    Wait,
    /// Write the collected output to the output file.
    WriteOutput,
    /// Report how the run ended; nothing more is to be done.
    Report(RunnerReport),
}

/// A phase in the form in which contracts speak of it.
pub enum Phase {
    ReadingInput,
    Spawning,
    Failing(Seq<char>),
    Announcing,
    Feeding,
    Waiting,
    Writing(Option<i32>),
    Done,
}

/// An event in the form in which contracts speak of it.
pub enum Event {
    InputRead(Result<(), Seq<char>>),
    Spawned(Result<(), Seq<char>>),
    Announced,
    Fed,
    Exited(Result<Option<i32>, Seq<char>>),
    OutputWritten(Result<(), Seq<char>>),
}

/// An action in the form in which contracts speak of it.
pub enum Action {
    ReadInput,
    Spawn,
    Announce,
    Feed,
    Wait,
    WriteOutput,
    Report(Result<Option<i32>, Seq<char>>),
}

impl View for RunnerPhase {
    type V = Phase;

    open spec fn view(&self) -> Phase {
        match self {
            RunnerPhase::ReadingInput => Phase::ReadingInput,
            RunnerPhase::Spawning => Phase::Spawning,
            RunnerPhase::Failing(reason) => Phase::Failing(reason@),
            RunnerPhase::Announcing => Phase::Announcing,
            RunnerPhase::Feeding => Phase::Feeding,
            RunnerPhase::Waiting => Phase::Waiting,
            RunnerPhase::Writing(code) => Phase::Writing(*code),
            RunnerPhase::Done => Phase::Done,
        }
    }
}

impl View for RunnerEvent {
    type V = Event;

    open spec fn view(&self) -> Event {
        match self {
            RunnerEvent::InputRead(r) => Event::InputRead(message_view(*r)),
            RunnerEvent::Spawned(r) => Event::Spawned(message_view(*r)),
            RunnerEvent::Announced => Event::Announced,
            RunnerEvent::Fed => Event::Fed,
            RunnerEvent::Exited(r) => Event::Exited(message_view(*r)),
            RunnerEvent::OutputWritten(r) => Event::OutputWritten(message_view(*r)),
        }
    }
}

impl View for RunnerAction {
    type V = Action;

    open spec fn view(&self) -> Action {
        match self {
            RunnerAction::ReadInput => Action::ReadInput,
            RunnerAction::Spawn => Action::Spawn,
            RunnerAction::Announce => Action::Announce,
            RunnerAction::Feed => Action::Feed,
            RunnerAction::Wait => Action::Wait,
            RunnerAction::WriteOutput => Action::WriteOutput,
            RunnerAction::Report(r) => Action::Report(message_view(*r)),
        }
    }
}

/// The phase in which a run starts, and its first action: the input file is
/// read first, if there is one, and the program is started after that.
pub open spec fn spec_first(has_input: bool) -> (Phase, Action) {
    if has_input {
        (Phase::ReadingInput, Action::ReadInput)
    } else {
        (Phase::Spawning, Action::Spawn)
    }
}

/// The phase that follows `phase` on `event`, and the action to take.
///
/// The input is read, the program is started, the run is announced, the
/// input is written to the program, the program is waited for, and its
/// output is written to the output file. The first of these that fails ends
/// the run with its reason as the report; a run that fails before it was
/// announced is announced before the report goes out. An event that the
/// phase does not wait for ends the run with a failure too.
pub open spec fn spec_next(has_input: bool, phase: Phase, event: Event) -> (Phase, Action) {
    match (phase, event) {
        (Phase::ReadingInput, Event::InputRead(Ok(_))) => (Phase::Spawning, Action::Spawn),
        (Phase::ReadingInput, Event::InputRead(Err(reason))) => (
            Phase::Failing(reason),
            Action::Announce,
        ),
        (Phase::Spawning, Event::Spawned(Ok(_))) => (Phase::Announcing, Action::Announce),
        (Phase::Spawning, Event::Spawned(Err(reason))) => (
            Phase::Failing(reason),
            Action::Announce,
        ),
        (Phase::Failing(reason), Event::Announced) => (Phase::Done, Action::Report(Err(reason))),
        (Phase::Announcing, Event::Announced) => if has_input {
            (Phase::Feeding, Action::Feed)
        } else {
            (Phase::Waiting, Action::Wait)
        },
        (Phase::Feeding, Event::Fed) => (Phase::Waiting, Action::Wait),
        (Phase::Waiting, Event::Exited(Ok(code))) => (Phase::Writing(code), Action::WriteOutput),
        (Phase::Waiting, Event::Exited(Err(reason))) => (Phase::Done, Action::Report(Err(reason))),
        (Phase::Writing(code), Event::OutputWritten(Ok(_))) => (
            Phase::Done,
            Action::Report(Ok(code)),
        ),
        (Phase::Writing(_), Event::OutputWritten(Err(reason))) => (
            Phase::Done,
            Action::Report(Err(reason)),
        ),
        _ => (Phase::Done, Action::Report(Err("Unexpected event in the run of a program"@))),
    }
}

/// The report with which the run ends when `events` come in one after the
/// other from `phase` on, if they take it that far.
pub open spec fn spec_report(has_input: bool, phase: Phase, events: Seq<Event>) -> Option<
    Result<Option<i32>, Seq<char>>,
>
    decreases events.len(),
{
    if events.len() == 0 {
        None
    } else {
        let (next, action) = spec_next(has_input, phase, events[0]);
        match action {
            Action::Report(report) => Some(report),
            _ => spec_report(has_input, next, events.drop_first()),
        }
    }
}

/// Whether the run is announced when `events` come in one after the other
/// from `phase` on, before its report goes out.
pub open spec fn spec_announced(has_input: bool, phase: Phase, events: Seq<Event>) -> bool
    decreases events.len(),
{
    if events.len() == 0 {
        false
    } else {
        let (next, action) = spec_next(has_input, phase, events[0]);
        match action {
            Action::Report(_) => false,
            Action::Announce => true,
            _ => spec_announced(has_input, next, events.drop_first()),
        }
    }
}

impl RunnerState {
    /// Starts the run of a program that is given an input file or none.
    pub fn start(has_input: bool) -> (r: (RunnerState, RunnerAction))
        ensures
            r.0.has_input == has_input,
            (r.0.phase@, r.1@) == spec_first(has_input),
    {
        if has_input {
            (RunnerState { has_input, phase: RunnerPhase::ReadingInput }, RunnerAction::ReadInput)
        } else {
            (RunnerState { has_input, phase: RunnerPhase::Spawning }, RunnerAction::Spawn)
        }
    }

    /// Takes the run one step further: from the state and what happened to
    /// the next state and the next action.
    pub fn step(self, event: RunnerEvent) -> (r: (RunnerState, RunnerAction))
        ensures
            r.0.has_input == self.has_input,
            (r.0.phase@, r.1@) == spec_next(self.has_input, self.phase@, event@),
    {
        let has_input = self.has_input;
        let (phase, action): (RunnerPhase, RunnerAction) = match (self.phase, event) {
            (RunnerPhase::ReadingInput, RunnerEvent::InputRead(Ok(_))) => (
                RunnerPhase::Spawning,
                RunnerAction::Spawn,
            ),
            (RunnerPhase::ReadingInput, RunnerEvent::InputRead(Err(reason))) => (
                RunnerPhase::Failing(reason),
                RunnerAction::Announce,
            ),
            (RunnerPhase::Spawning, RunnerEvent::Spawned(Ok(_))) => (
                RunnerPhase::Announcing,
                RunnerAction::Announce,
            ),
            (RunnerPhase::Spawning, RunnerEvent::Spawned(Err(reason))) => (
                RunnerPhase::Failing(reason),
                RunnerAction::Announce,
            ),
            (RunnerPhase::Failing(reason), RunnerEvent::Announced) => (
                RunnerPhase::Done,
                RunnerAction::Report(Err(reason)),
            ),
            (RunnerPhase::Announcing, RunnerEvent::Announced) => {
                if has_input {
                    (RunnerPhase::Feeding, RunnerAction::Feed)
                } else {
                    (RunnerPhase::Waiting, RunnerAction::Wait)
                }
            },
            (RunnerPhase::Feeding, RunnerEvent::Fed) => (RunnerPhase::Waiting, RunnerAction::Wait),
            (RunnerPhase::Waiting, RunnerEvent::Exited(Ok(code))) => (
                RunnerPhase::Writing(code),
                RunnerAction::WriteOutput,
            ),
            (RunnerPhase::Waiting, RunnerEvent::Exited(Err(reason))) => (
                RunnerPhase::Done,
                RunnerAction::Report(Err(reason)),
            ),
            (RunnerPhase::Writing(code), RunnerEvent::OutputWritten(Ok(_))) => (
                RunnerPhase::Done,
                RunnerAction::Report(Ok(code)),
            ),
            (RunnerPhase::Writing(_), RunnerEvent::OutputWritten(Err(reason))) => (
                RunnerPhase::Done,
                RunnerAction::Report(Err(reason)),
            ),
            _ => (
                RunnerPhase::Done,
                RunnerAction::Report(Err("Unexpected event in the run of a program".to_owned())),
            ),
        };
        (RunnerState { has_input, phase }, action)
    }
}

/// The events of a run in which nothing fails before the program has
/// exited with `code`, up to the event `written` of writing its output.
pub open spec fn run_events(has_input: bool, code: Option<i32>, written: Event) -> Seq<Event> {
    if has_input {
        seq![
            Event::InputRead(Ok(())),
            Event::Spawned(Ok(())),
            Event::Announced,
            Event::Fed,
            Event::Exited(Ok(code)),
            written,
        ]
    } else {
        seq![Event::Spawned(Ok(())), Event::Announced, Event::Exited(Ok(code)), written]
    }
}

/// A run in which nothing fails reports the exit code of the program; one
/// whose output cannot be written reports that failure.
pub proof fn lemma_run_reports_exit_or_write_failure(
    has_input: bool,
    code: Option<i32>,
    written: Result<(), Seq<char>>,
)
    ensures
        spec_report(
            has_input,
            spec_first(has_input).0,
            run_events(has_input, code, Event::OutputWritten(written)),
        ) == Some(
            match written {
                Ok(_) => Ok::<Option<i32>, Seq<char>>(code),
                Err(reason) => Err::<Option<i32>, Seq<char>>(reason),
            },
        ),
{
    let events = run_events(has_input, code, Event::OutputWritten(written));
    let last = seq![Event::OutputWritten(written)];
    let from_exit = seq![Event::Exited(Ok(code)), Event::OutputWritten(written)];
    assert(from_exit.drop_first() =~= last);
    assert(spec_report(has_input, Phase::Writing(code), last) == Some(
        match written {
            Ok(_) => Ok::<Option<i32>, Seq<char>>(code),
            Err(reason) => Err::<Option<i32>, Seq<char>>(reason),
        },
    ));
    assert(spec_report(has_input, Phase::Waiting, from_exit) == spec_report(
        has_input,
        Phase::Writing(code),
        last,
    ));
    if has_input {
        let from_fed = seq![Event::Fed, Event::Exited(Ok(code)), Event::OutputWritten(written)];
        let from_announced = seq![
            Event::Announced,
            Event::Fed,
            Event::Exited(Ok(code)),
            Event::OutputWritten(written),
        ];
        let from_spawned = seq![
            Event::Spawned(Ok(())),
            Event::Announced,
            Event::Fed,
            Event::Exited(Ok(code)),
            Event::OutputWritten(written),
        ];
        assert(from_fed.drop_first() =~= from_exit);
        assert(from_announced.drop_first() =~= from_fed);
        assert(from_spawned.drop_first() =~= from_announced);
        assert(events.drop_first() =~= from_spawned);
        assert(spec_report(has_input, Phase::Feeding, from_fed) == spec_report(
            has_input,
            Phase::Waiting,
            from_exit,
        ));
        assert(spec_report(has_input, Phase::Announcing, from_announced) == spec_report(
            has_input,
            Phase::Feeding,
            from_fed,
        ));
        assert(spec_report(has_input, Phase::Spawning, from_spawned) == spec_report(
            has_input,
            Phase::Announcing,
            from_announced,
        ));
        assert(spec_report(has_input, Phase::ReadingInput, events) == spec_report(
            has_input,
            Phase::Spawning,
            from_spawned,
        ));
    } else {
        let from_announced = seq![
            Event::Announced,
            Event::Exited(Ok(code)),
            Event::OutputWritten(written),
        ];
        assert(from_announced.drop_first() =~= from_exit);
        assert(events.drop_first() =~= from_announced);
        assert(spec_report(has_input, Phase::Announcing, from_announced) == spec_report(
            has_input,
            Phase::Waiting,
            from_exit,
        ));
        assert(spec_report(has_input, Phase::Spawning, events) == spec_report(
            has_input,
            Phase::Announcing,
            from_announced,
        ));
    }
}

/// An input file that cannot be read, or a program that cannot be started,
/// fails the run with that reason, and the run is still announced before
/// its report goes out, so that nobody waits for the announcement in vain.
pub proof fn lemma_early_failure_is_announced_and_reported(
    has_input: bool,
    reason: Seq<char>,
    later: Seq<Event>,
)
    ensures
        ({
            let failed = if has_input {
                Event::InputRead(Err(reason))
            } else {
                Event::Spawned(Err(reason))
            };
            let events = seq![failed, Event::Announced] + later;
            &&& spec_report(has_input, spec_first(has_input).0, events) == Some(
                Err::<Option<i32>, Seq<char>>(reason),
            )
            &&& spec_announced(has_input, spec_first(has_input).0, events)
        }),
        has_input ==> spec_report(
            has_input,
            Phase::ReadingInput,
            seq![Event::InputRead(Ok(())), Event::Spawned(Err(reason)), Event::Announced] + later,
        ) == Some(Err::<Option<i32>, Seq<char>>(reason)),
{
    let failed = if has_input {
        Event::InputRead(Err(reason))
    } else {
        Event::Spawned(Err(reason))
    };
    let events = seq![failed, Event::Announced] + later;
    let rest = seq![Event::Announced] + later;
    assert(events[0] == failed);
    assert(events.drop_first() =~= rest);
    assert(rest[0] == Event::Announced);
    assert(spec_report(has_input, Phase::Failing(reason), rest) == Some(
        Err::<Option<i32>, Seq<char>>(reason),
    ));
    assert(spec_report(has_input, spec_first(has_input).0, events) == spec_report(
        has_input,
        Phase::Failing(reason),
        rest,
    ));
    if has_input {
        let longer = seq![Event::InputRead(Ok(())), Event::Spawned(Err(reason)), Event::Announced]
            + later;
        let from_spawn = seq![Event::Spawned(Err(reason)), Event::Announced] + later;
        assert(longer[0] == Event::InputRead(Ok(())));
        assert(longer.drop_first() =~= from_spawn);
        assert(from_spawn[0] == Event::Spawned(Err(reason)));
        assert(from_spawn.drop_first() =~= rest);
        assert(spec_report(has_input, Phase::Spawning, from_spawn) == spec_report(
            has_input,
            Phase::Failing(reason),
            rest,
        ));
        assert(spec_report(has_input, Phase::ReadingInput, longer) == spec_report(
            has_input,
            Phase::Spawning,
            from_spawn,
        ));
    }
}

/// Before the run is announced nothing is reported, unless an event comes
/// in that was not waited for.
pub proof fn lemma_no_report_before_announcement(has_input: bool, phase: Phase, event: Event)
    requires
        phase is ReadingInput || phase is Spawning || phase is Announcing,
        spec_next(has_input, phase, event).1 is Report,
    ensures
        spec_next(has_input, phase, event).1 == Action::Report(
            Err("Unexpected event in the run of a program"@),
        ),
{
}

} // verus!
