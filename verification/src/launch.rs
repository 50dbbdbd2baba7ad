//! Launching the programs of a test case: the command of one program, what
//! a run of it came to, and the course of a whole suite.

pub mod diff_tool;
pub mod filter;
pub mod laws;
pub mod runner;

use crate::checker_error::{CheckerError, CheckerResult, Stage};
use crate::config::cf_parsing;
use crate::config::{Config, ExtensionRules};
use crate::dyn_formatting::{first_failure, format_each, formatted, formatted_texts,
    reports_in_stage, Dictionary};
use crate::launch::diff_tool::{DiffTool, DiffToolOk};
use crate::launch::filter::OutputFilter;
use crate::launch::runner::RunnerReport;
use crate::path_lib::FilePath;
use crate::text::{decimal, lemma_views_push, push_decimal, u32_to_string, views};
use crate::util::TimeSpan;
use vstd::prelude::*;
use vstd::string::*;

verus! {

/// How programs with some extension are launched: the command to run, or
/// none where the file itself is run, and the patterns of its arguments.
#[derive(Debug, Clone)]
pub struct LaunchConfig {
    pub command: Option<String>,
    pub args: Vec<String>,
}

/// A launch rule in the form in which contracts speak of it.
pub struct LaunchConfigView {
    pub command: Option<Seq<char>>,
    pub args: Seq<Seq<char>>,
}

impl View for LaunchConfig {
    type V = LaunchConfigView;

    open spec fn view(&self) -> LaunchConfigView {
        LaunchConfigView {
            command: match self.command {
                Some(c) => Some(c@),
                None => None,
            },
            args: views(self.args@),
        }
    }
}

/// The rule for files that no rule is given for: the file itself is run,
/// without arguments of the rule's own.
pub open spec fn default_rule() -> LaunchConfigView {
    LaunchConfigView { command: None, args: Seq::empty() }
}

/// The dictionary of a launch: `file` stands for the file to launch.
pub open spec fn file_dict(file: Seq<char>) -> Map<Seq<char>, Seq<char>> {
    Map::empty().insert("file"@, file)
}

/// What the dictionary of a launch holds.
pub open spec fn file_entries(file: Seq<char>) -> Seq<(Seq<char>, Seq<char>)> {
    seq![("file"@, file)]
}

/// The program that `rule` runs for `file`.
pub open spec fn rule_program(rule: LaunchConfigView, file: Seq<char>) -> Seq<char> {
    match rule.command {
        Some(c) => c,
        None => file,
    }
}

/// Whether `r` is the command line of `rule` for `file` with `extra`
/// arguments at its end: the program and the formatted arguments, or the
/// error of the first argument that cannot be formatted.
pub open spec fn reports_command(
    r: CheckerResult<(String, Vec<String>)>,
    rule: LaunchConfigView,
    file: Seq<char>,
    stage: Stage,
    extra: Seq<Seq<char>>,
) -> bool {
    let k = first_failure(rule.args, file_dict(file), 0);
    if k >= rule.args.len() {
        r matches Ok(line) && line.0@ == rule_program(rule, file) && views(line.1@)
            == formatted_texts(rule.args, file_dict(file)) + extra
    } else {
        r matches Err(e) && reports_in_stage(
            Err::<String, Box<CheckerError>>(e),
            rule.args[k],
            file_entries(file),
            stage,
            formatted(rule.args[k], file_dict(file)),
        )
    }
}

/// How a run of a program ended, as far as the suite cares.
#[derive(Debug, Clone, Copy, PartialEq, Eq, Structural)]
pub enum LaunchOk {
    /// The program finished after this time.
    Success(TimeSpan),
    /// The program was given up after this time.
    Timeout(TimeSpan),
}

/// What one run of a program came to.
#[derive(Debug)]
pub enum ProcessOutcome {
    /// The program finished after this time, with this exit code if it
    /// left one.
    Completed(TimeSpan, Option<i32>),
    /// The time allowed ran out first; the program may still be running.
    TimedOut(TimeSpan),
    /// The program could not be started, fed or waited for.
    LaunchFailed(String),
}

impl ProcessOutcome {
    /// What the race between the program and the timer came to. `received`
    /// is what the runner of the program reported before the timer fired,
    /// if anything: the exit code of the finished program, or the reason
    /// for which the launch failed. `elapsed` is the time since the start.
    pub fn from_race(received: Option<RunnerReport>, elapsed: TimeSpan) -> (r: ProcessOutcome)
        ensures
            match received {
                None => r == ProcessOutcome::TimedOut(elapsed),
                Some(Ok(code)) => r == ProcessOutcome::Completed(elapsed, code),
                Some(Err(reason)) => r == ProcessOutcome::LaunchFailed(reason),
            },
    {
        match received {
            None => ProcessOutcome::TimedOut(elapsed),
            Some(Ok(code)) => ProcessOutcome::Completed(elapsed, code),
            Some(Err(reason)) => ProcessOutcome::LaunchFailed(reason),
        }
    }
}

impl Default for LaunchConfig {
    /// The rule for files that no rule is given for.
    fn default() -> (r: LaunchConfig)
        ensures
            r.command is None,
            r.args@ == Seq::<String>::empty(),
            r@ == default_rule(),
    {
        let r = LaunchConfig { command: None, args: Vec::new() };
        assert(r@.args =~= Seq::<Seq<char>>::empty());
        r
    }
}

impl From<cf_parsing::LaunchConfig> for LaunchConfig {
    /// The rule that an entry of the configuration file gives.
    fn from(value: cf_parsing::LaunchConfig) -> (r: LaunchConfig) {
        LaunchConfig { command: Some(value.command), args: value.args }
    }
}

impl vstd::std_specs::convert::FromSpecImpl<cf_parsing::LaunchConfig> for LaunchConfig {
    open spec fn obeys_from_spec() -> bool {
        true
    }

    open spec fn from_spec(value: cf_parsing::LaunchConfig) -> LaunchConfig {
        LaunchConfig { command: Some(value.command), args: value.args }
    }
}

impl LaunchConfig {
    /// The arguments of the rule for launching `file`.
    pub fn get_args(&self, file: &String, stage: Stage) -> (r: CheckerResult<Vec<String>>)
        ensures
            crate::dyn_formatting::reports_each(
                r,
                self@.args,
                file_dict(file@),
                file_entries(file@),
                stage,
            ),
    {
        let mut args_dict = Dictionary::new();
        args_dict.insert("file", file.as_str());
        assert(args_dict.spec_entries() =~= file_entries(file@));
        format_each(&self.args, &args_dict, stage)
    }

    /// The command line for launching `file`: the program to run and its
    /// arguments, those of the rule first and `extra_args` after them.
    pub fn command_line(&self, file: &String, stage: Stage, extra_args: Vec<String>) -> (r:
        CheckerResult<(String, Vec<String>)>)
        ensures
            reports_command(r, self@, file@, stage, views(extra_args@)),
    {
        let mut args = match self.get_args(file, stage) {
            Ok(args) => args,
            Err(e) => {
                return Err(e);
            },
        };
        let ghost own = views(args@);
        let mut i: usize = 0;
        assert(views(extra_args@).take(0) =~= Seq::<Seq<char>>::empty());
        assert(own + Seq::<Seq<char>>::empty() =~= own);
        while i < extra_args.len()
            invariant
                i <= extra_args.len(),
                views(args@) == own + views(extra_args@).take(i as int),
            decreases extra_args.len() - i,
        {
            proof {
                lemma_views_push(args@, extra_args[i as int]);
                assert((own + views(extra_args@).take(i as int)).push(extra_args[i as int]@)
                    =~= own + views(extra_args@).take(i + 1));
            }
            args.push(extra_args[i].clone());
            i += 1;
        }
        assert(views(extra_args@).take(extra_args.len() as int) =~= views(extra_args@));
        let program = match &self.command {
            Some(c) => c.clone(),
            None => file.clone(),
        };
        Ok((program, args))
    }

    /// What the outcome of running `program` with `args` means for the
    /// stage: the time of a run that finished or was given up, or the error
    /// of a launch that failed.
    pub fn launch_result(
        outcome: ProcessOutcome,
        stage: Stage,
        program: String,
        args: Vec<String>,
    ) -> (r: CheckerResult<LaunchOk>)
        ensures
            match outcome {
                ProcessOutcome::Completed(elapsed, _) => r == Ok::<LaunchOk, Box<CheckerError>>(
                    LaunchOk::Success(elapsed),
                ),
                ProcessOutcome::TimedOut(elapsed) => r == Ok::<LaunchOk, Box<CheckerError>>(
                    LaunchOk::Timeout(elapsed),
                ),
                ProcessOutcome::LaunchFailed(reason) => r matches Err(e) && (*e matches CheckerError::CommandError {
                    stage: st,
                    command,
                    args: a,
                    file,
                    msg,
                } && st == stage && command@ == program@ && a == args && file@ == program@ && msg@
                    == "Error when launching: "@ + reason@),
            },
    {
        match outcome {
            ProcessOutcome::Completed(elapsed, _) => Ok(LaunchOk::Success(elapsed)),
            ProcessOutcome::TimedOut(elapsed) => Ok(LaunchOk::Timeout(elapsed)),
            ProcessOutcome::LaunchFailed(reason) => {
                let mut msg = "Error when launching: ".to_owned();
                msg.append(reason.as_str());
                Err(
                    Box::new(
                        CheckerError::CommandError {
                            stage,
                            command: program.clone(),
                            args,
                            file: program,
                            msg,
                        },
                    ),
                )
            },
        }
    }
}

/// The verdict on one test case.
#[derive(Debug)]
pub enum LaunchSuiteEnum {
    /// Accepted: the right output, in this time.
    AC(TimeSpan),
    /// Wrong answer, in this time; the file for the difference and whether
    /// it was written.
    WA(TimeSpan, String, bool),
    /// Time limit exceeded: given up, or too slow, after this time.
    TLE(TimeSpan),
    /// Unknown: the harness failed, for this reason.
    UK(String),
}

/// A verdict in the form in which contracts speak of it.
pub enum Verdict {
    AC(TimeSpan),
    WA(TimeSpan, Seq<char>, bool),
    TLE(TimeSpan),
    UK(Seq<char>),
}

impl View for LaunchSuiteEnum {
    type V = Verdict;

    open spec fn view(&self) -> Verdict {
        match self {
            LaunchSuiteEnum::AC(d) => Verdict::AC(*d),
            LaunchSuiteEnum::WA(d, log, written) => Verdict::WA(*d, log@, *written),
            LaunchSuiteEnum::TLE(d) => Verdict::TLE(*d),
            LaunchSuiteEnum::UK(reason) => Verdict::UK(reason@),
        }
    }
}

/// The verdict on the test case `index`.
#[derive(Debug)]
pub struct LaunchSuiteResult {
    pub index: u32,
    pub inner: LaunchSuiteEnum,
}

/// Where a suite stands. The time is that of the tested program.
#[derive(Debug, Clone, Copy, PartialEq, Eq, Structural)]
pub enum SuitePhase {
    /// The data generator runs.
    Generating,
    /// The tested program runs.
    Testing,
    /// The accepted program runs.
    Answering(TimeSpan),
    /// The filter of this rank works on the output of the accepted program.
    FilteringAccepted(TimeSpan, usize),
    /// The filter of this rank works on the output of the tested program.
    FilteringTested(TimeSpan, usize),
    /// The two outputs are compared.
    Comparing(TimeSpan),
    /// The verdict is out.
    Finished,
}

/// The state of the suite of one test case.
#[derive(Debug, Clone, Copy, PartialEq, Eq, Structural)]
pub struct SuiteState {
    pub index: u32,
    pub phase: SuitePhase,
}

/// What happened outside since the last action.
#[derive(Debug)]
pub enum SuiteEvent {
    /// The program that was to be launched has run.
    Launched(CheckerResult<LaunchOk>),
    /// The filter has worked on the file.
    Filtered(CheckerResult<()>),
    /// The two outputs have been compared.
    Compared(CheckerResult<DiffToolOk>),
}

/// What two compared outputs were found to be, in the form in which
/// contracts speak of it.
pub enum Compared {
    Same,
    Different(Seq<char>, bool),
}

/// An event in the form in which contracts speak of it: an error is taken
/// by what it says.
pub enum Event {
    Launched(Result<LaunchOk, Seq<char>>),
    Filtered(Result<(), Seq<char>>),
    Compared(Result<Compared, Seq<char>>),
}

impl View for SuiteEvent {
    type V = Event;

    open spec fn view(&self) -> Event {
        match self {
            SuiteEvent::Launched(Ok(ok)) => Event::Launched(Ok(*ok)),
            SuiteEvent::Launched(Err(e)) => Event::Launched(Err(e.spec_message())),
            SuiteEvent::Filtered(Ok(_)) => Event::Filtered(Ok(())),
            SuiteEvent::Filtered(Err(e)) => Event::Filtered(Err(e.spec_message())),
            SuiteEvent::Compared(Ok(DiffToolOk::Same)) => Event::Compared(Ok(Compared::Same)),
            SuiteEvent::Compared(Ok(DiffToolOk::Different { log_path, log_success })) => Event::Compared(
                Ok(Compared::Different(log_path@, *log_success)),
            ),
            SuiteEvent::Compared(Err(e)) => Event::Compared(Err(e.spec_message())),
        }
    }
}

/// What is to be done outside next. Files are named within the working
/// directory.
#[derive(Debug)]
pub enum SuiteAction {
    /// Run the program of `stage` with `extra_args` after the arguments of
    /// its rule, the content of `input_file` as its input, and its output
    /// into `output_file`; give it up after `timeout`.
    Launch {
        stage: Stage,
        extra_args: Vec<String>,
        input_file: Option<String>,
        output_file: String,
        timeout: TimeSpan,
    },
    /// Let `filter` work on `file`.
    Filter { filter: OutputFilter, file: String },
    /// Compare the two outputs; a difference goes to `log_file`.
    Compare { tested_file: String, accepted_file: String, log_file: String },
    /// Nothing more: the verdict is out.
    Finish(LaunchSuiteResult),
}

/// An action in the form in which contracts speak of it.
pub enum Action {
    Launch {
        stage: Stage,
        extra_args: Seq<Seq<char>>,
        input_file: Option<Seq<char>>,
        output_file: Seq<char>,
        timeout: TimeSpan,
    },
    Filter { filter: OutputFilter, file: Seq<char> },
    Compare { tested_file: Seq<char>, accepted_file: Seq<char>, log_file: Seq<char> },
    Finish(u32, Verdict),
}

impl View for SuiteAction {
    type V = Action;

    open spec fn view(&self) -> Action {
        match self {
            SuiteAction::Launch { stage, extra_args, input_file, output_file, timeout } => Action::Launch {
                stage: *stage,
                extra_args: views(extra_args@),
                input_file: match input_file {
                    Some(f) => Some(f@),
                    None => None,
                },
                output_file: output_file@,
                timeout: *timeout,
            },
            SuiteAction::Filter { filter, file } => Action::Filter { filter: *filter, file: file@ },
            SuiteAction::Compare { tested_file, accepted_file, log_file } => Action::Compare {
                tested_file: tested_file@,
                accepted_file: accepted_file@,
                log_file: log_file@,
            },
            SuiteAction::Finish(result) => Action::Finish(result.index, result.inner@),
        }
    }
}

/// The name of the input of the test case `index`.
pub open spec fn data_file(index: u32) -> Seq<char> {
    "data"@ + decimal(index as nat) + ".in"@
}

/// The name of the output of the accepted program for the test case `index`.
pub open spec fn accepted_file(index: u32) -> Seq<char> {
    "ac"@ + decimal(index as nat) + ".out"@
}

/// The name of the output of the tested program for the test case `index`.
pub open spec fn tested_file(index: u32) -> Seq<char> {
    "tested"@ + decimal(index as nat) + ".out"@
}

/// The name of the file for the difference of the test case `index`.
pub open spec fn log_file(index: u32) -> Seq<char> {
    "wa"@ + decimal(index as nat) + ".log"@
}

/// The two arguments that tell a program the case and the number of cases.
pub open spec fn case_args(index: u32, test_cases: u32) -> Seq<Seq<char>> {
    seq![decimal(index as nat), decimal(test_cases as nat)]
}

/// What launches the suites of a run: the programs, the rules to launch
/// them by, the two limits of time and what is done with the outputs.
pub struct SuiteLauncher {
    pub rules: ExtensionRules<LaunchConfig>,
    pub test_cases: u32,
    pub program_timeout: TimeSpan,
    pub accepted_timeout: TimeSpan,
    pub working_directory: FilePath,
    pub data_generator: FilePath,
    pub accepted_program: FilePath,
    pub tested_program: FilePath,
    pub output_filters: Vec<OutputFilter>,
    pub diff_tool: DiffTool,
}

/// `name` with the number `index` and then `ending` after it.
pub fn numbered_file(name: &str, index: u32, ending: &str) -> (r: String)
    ensures
        r@ == name@ + decimal(index as nat) + ending@,
{
    let mut r = name.to_owned();
    push_decimal(&mut r, index as u128);
    r.append(ending);
    r
}

/// A verdict of unknown for the reason `head` followed by `tail`.
fn unknown(head: &str, tail: &str) -> (r: LaunchSuiteEnum)
    ensures
        r@ == Verdict::UK(head@ + tail@),
{
    let mut reason = head.to_owned();
    reason.append(tail);
    LaunchSuiteEnum::UK(reason)
}

impl From<Config> for SuiteLauncher {
    /// The launcher for a run with the settings `value`.
    fn from(value: Config) -> (r: SuiteLauncher) {
        SuiteLauncher {
            rules: value.launch_rules,
            test_cases: value.test_cases,
            program_timeout: value.program_timeout,
            accepted_timeout: value.ac_timeout,
            working_directory: value.working_directory,
            data_generator: value.data_generator,
            accepted_program: value.accepted_program,
            tested_program: value.tested_program,
            output_filters: value.output_filters,
            diff_tool: value.diff_tool,
        }
    }
}

impl vstd::std_specs::convert::FromSpecImpl<Config> for SuiteLauncher {
    open spec fn obeys_from_spec() -> bool {
        true
    }

    open spec fn from_spec(value: Config) -> SuiteLauncher {
        SuiteLauncher {
            rules: value.launch_rules,
            test_cases: value.test_cases,
            program_timeout: value.program_timeout,
            accepted_timeout: value.ac_timeout,
            working_directory: value.working_directory,
            data_generator: value.data_generator,
            accepted_program: value.accepted_program,
            tested_program: value.tested_program,
            output_filters: value.output_filters,
            diff_tool: value.diff_tool,
        }
    }
}

impl SuiteLauncher {
    /// The program that is compiled or launched in `stage`.
    pub open spec fn spec_program_of(&self, stage: Stage) -> FilePath {
        match stage {
            Stage::CompileDG | Stage::LaunchDG => self.data_generator,
            Stage::CompileAC | Stage::LaunchAC => self.accepted_program,
            Stage::CompileTP | Stage::LaunchTP => self.tested_program,
        }
    }

    /// The launch rule for `program`: the rule of its extension, or the
    /// default rule where it has no extension or its extension has no rule.
    pub open spec fn spec_rule_for(&self, program: FilePath) -> LaunchConfigView {
        match program.extension {
            Some(ext) => if self.rules@.contains_key(ext@) {
                self.rules@[ext@]@
            } else {
                default_rule()
            },
            None => default_rule(),
        }
    }

    /// The action that launches the data generator for the case `index`.
    pub open spec fn spec_generate(&self, index: u32) -> Action {
        Action::Launch {
            stage: Stage::LaunchDG,
            extra_args: case_args(index, self.test_cases),
            input_file: None,
            output_file: data_file(index),
            timeout: self.program_timeout,
        }
    }

    /// The action that launches the tested program for the case `index`.
    pub open spec fn spec_test(&self, index: u32) -> Action {
        Action::Launch {
            stage: Stage::LaunchTP,
            extra_args: Seq::empty(),
            input_file: Some(data_file(index)),
            output_file: tested_file(index),
            timeout: self.program_timeout,
        }
    }

    /// The action that launches the accepted program for the case `index`.
    pub open spec fn spec_answer(&self, index: u32) -> Action {
        Action::Launch {
            stage: Stage::LaunchAC,
            extra_args: case_args(index, self.test_cases),
            input_file: Some(data_file(index)),
            output_file: accepted_file(index),
            timeout: self.program_timeout,
        }
    }

    /// The action that compares the two outputs of the case `index`.
    pub open spec fn spec_compare(index: u32) -> Action {
        Action::Compare {
            tested_file: tested_file(index),
            accepted_file: accepted_file(index),
            log_file: log_file(index),
        }
    }

    /// Where the suite goes once the filters before rank `rank` are done:
    /// to the filter of that rank, on the output of the accepted program
    /// first, or to the comparison if no filter is left.
    pub open spec fn spec_filter_from(&self, index: u32, tested: TimeSpan, rank: int) -> (
        SuitePhase,
        Action,
    ) {
        if 0 <= rank < self.output_filters@.len() {
            (
                SuitePhase::FilteringAccepted(tested, rank as usize),
                Action::Filter { filter: self.output_filters@[rank], file: accepted_file(index) },
            )
        } else {
            (SuitePhase::Comparing(tested), Self::spec_compare(index))
        }
    }

    /// The verdict on a tested program that gave the right output in the
    /// time `tested`: accepted if that is within the time for acceptance,
    /// else too slow.
    pub open spec fn spec_timing(&self, tested: TimeSpan) -> Verdict {
        if tested.nanos <= self.accepted_timeout.nanos {
            Verdict::AC(tested)
        } else {
            Verdict::TLE(tested)
        }
    }

    /// The phase that follows `phase` on `event`, and the action to take.
    ///
    /// The data generator, the tested program and the accepted program run
    /// in this order, then each filter works on both outputs, then the
    /// outputs are compared. A failure of the harness ends the suite with
    /// the verdict unknown; the tested program that is given up ends it
    /// with time limit exceeded, before the accepted program is launched.
    /// An event that the phase does not wait for ends it with unknown too.
    pub open spec fn spec_next(&self, index: u32, phase: SuitePhase, event: Event) -> (
        SuitePhase,
        Action,
    ) {
        match (phase, event) {
            (SuitePhase::Generating, Event::Launched(Ok(LaunchOk::Success(_)))) => (
                SuitePhase::Testing,
                self.spec_test(index),
            ),
            (SuitePhase::Generating, Event::Launched(Ok(LaunchOk::Timeout(_)))) => (
                SuitePhase::Finished,
                Action::Finish(index, Verdict::UK("Launch data generator failed: "@ + "Timeout"@)),
            ),
            (SuitePhase::Generating, Event::Launched(Err(msg))) => (
                SuitePhase::Finished,
                Action::Finish(
                    index,
                    Verdict::UK("Launch data generator failed: Inner Error: "@ + msg),
                ),
            ),
            (SuitePhase::Testing, Event::Launched(Ok(LaunchOk::Success(d)))) => (
                SuitePhase::Answering(d),
                self.spec_answer(index),
            ),
            (SuitePhase::Testing, Event::Launched(Ok(LaunchOk::Timeout(d)))) => (
                SuitePhase::Finished,
                Action::Finish(index, Verdict::TLE(d)),
            ),
            (SuitePhase::Testing, Event::Launched(Err(msg))) => (
                SuitePhase::Finished,
                Action::Finish(index, Verdict::UK("Launch tested program failed: "@ + msg)),
            ),
            (SuitePhase::Answering(d), Event::Launched(Ok(LaunchOk::Success(_)))) => self.spec_filter_from(
                index,
                d,
                0,
            ),
            (SuitePhase::Answering(_), Event::Launched(Ok(LaunchOk::Timeout(_)))) => (
                SuitePhase::Finished,
                Action::Finish(index, Verdict::UK("Launch data generator failed: "@ + "Timeout"@)),
            ),
            (SuitePhase::Answering(_), Event::Launched(Err(msg))) => (
                SuitePhase::Finished,
                Action::Finish(
                    index,
                    Verdict::UK("Launch data generator failed: Inner Error: "@ + msg),
                ),
            ),
            (SuitePhase::FilteringAccepted(d, rank), Event::Filtered(Ok(_))) => if rank
                < self.output_filters@.len() {
                (
                    SuitePhase::FilteringTested(d, rank),
                    Action::Filter {
                        filter: self.output_filters@[rank as int],
                        file: tested_file(index),
                    },
                )
            } else {
                (SuitePhase::Comparing(d), Self::spec_compare(index))
            },
            (SuitePhase::FilteringAccepted(_, _), Event::Filtered(Err(msg))) => (
                SuitePhase::Finished,
                Action::Finish(index, Verdict::UK("Filter accepted output file failed: "@ + msg)),
            ),
            (SuitePhase::FilteringTested(d, rank), Event::Filtered(Ok(_))) => self.spec_filter_from(
                index,
                d,
                rank + 1,
            ),
            (SuitePhase::FilteringTested(_, _), Event::Filtered(Err(msg))) => (
                SuitePhase::Finished,
                Action::Finish(index, Verdict::UK("Filter tested output file failed: "@ + msg)),
            ),
            (SuitePhase::Comparing(d), Event::Compared(Ok(Compared::Same))) => (
                SuitePhase::Finished,
                Action::Finish(index, self.spec_timing(d)),
            ),
            (SuitePhase::Comparing(d), Event::Compared(Ok(Compared::Different(log, written)))) => (
                SuitePhase::Finished,
                Action::Finish(index, Verdict::WA(d, log, written)),
            ),
            (SuitePhase::Comparing(_), Event::Compared(Err(msg))) => (
                SuitePhase::Finished,
                Action::Finish(index, Verdict::UK("Different tool failed: "@ + msg)),
            ),
            _ => (
                SuitePhase::Finished,
                Action::Finish(index, Verdict::UK("Unexpected event: "@ + "the suite waits for another"@)),
            ),
        }
    }

    /// The actions that the suite takes when `events` come in one after the
    /// other from `phase` on, up to the action that gives the verdict.
    pub open spec fn spec_course(&self, index: u32, phase: SuitePhase, events: Seq<Event>) -> Seq<
        Action,
    >
        decreases events.len(),
    {
        if events.len() == 0 {
            Seq::empty()
        } else {
            let (next, action) = self.spec_next(index, phase, events[0]);
            if action is Finish {
                seq![action]
            } else {
                seq![action] + self.spec_course(index, next, events.drop_first())
            }
        }
    }

    /// All the actions of the suite of the case `index` when `events` come
    /// in one after the other: the launch of the data generator and what
    /// follows on the events.
    pub open spec fn spec_suite(&self, index: u32, events: Seq<Event>) -> Seq<Action> {
        seq![self.spec_generate(index)] + self.spec_course(index, SuitePhase::Generating, events)
    }

    /// The verdict that the suite reaches when `events` come in one after
    /// the other from `phase` on, if they take it that far.
    pub open spec fn spec_outcome(&self, index: u32, phase: SuitePhase, events: Seq<Event>) -> Option<
        Verdict,
    >
        decreases events.len(),
    {
        if events.len() == 0 {
            None
        } else {
            let (next, action) = self.spec_next(index, phase, events[0]);
            match action {
                Action::Finish(_, verdict) => Some(verdict),
                _ => self.spec_outcome(index, next, events.drop_first()),
            }
        }
    }

    /// The program that is compiled or launched in `stage`.
    pub fn program_of(&self, stage: Stage) -> (r: &FilePath)
        ensures
            *r == self.spec_program_of(stage),
    {
        match stage {
            Stage::CompileDG | Stage::LaunchDG => &self.data_generator,
            Stage::CompileAC | Stage::LaunchAC => &self.accepted_program,
            Stage::CompileTP | Stage::LaunchTP => &self.tested_program,
        }
    }

    /// The command line that launches the program of `stage`: the program
    /// to run and its arguments, by the rule for the extension of the
    /// program, with `extra_args` at the end.
    pub fn launch_command(&self, stage: Stage, extra_args: Vec<String>) -> (r: CheckerResult<
        (String, Vec<String>),
    >)
        ensures
            reports_command(
                r,
                self.spec_rule_for(self.spec_program_of(stage)),
                self.spec_program_of(stage).path@,
                stage,
                views(extra_args@),
            ),
    {
        let program = self.program_of(stage);
        let default_launch_rule = LaunchConfig::default();
        let launch_rule = match &program.extension {
            Some(ext) => match self.rules.get_rule(ext) {
                Some(rule) => rule,
                None => &default_launch_rule,
            },
            None => &default_launch_rule,
        };
        launch_rule.command_line(&program.path, stage, extra_args)
    }

    /// The two arguments that tell a program the case and the number of
    /// cases.
    fn case_arguments(&self, index: u32) -> (r: Vec<String>)
        ensures
            views(r@) == case_args(index, self.test_cases),
    {
        let mut r: Vec<String> = Vec::new();
        r.push(u32_to_string(index));
        r.push(u32_to_string(self.test_cases));
        assert(views(r@) =~= case_args(index, self.test_cases));
        r
    }

    /// The action that compares the two outputs of the case `index`.
    fn compare(index: u32) -> (r: SuiteAction)
        ensures
            r@ == Self::spec_compare(index),
    {
        SuiteAction::Compare {
            tested_file: numbered_file("tested", index, ".out"),
            accepted_file: numbered_file("ac", index, ".out"),
            log_file: numbered_file("wa", index, ".log"),
        }
    }

    /// Where the suite goes once the filters before rank `rank` are done.
    fn filter_from(&self, index: u32, tested: TimeSpan, rank: usize) -> (r: (
        SuitePhase,
        SuiteAction,
    ))
        ensures
            (r.0, r.1@) == self.spec_filter_from(index, tested, rank as int),
    {
        if rank < self.output_filters.len() {
            (
                SuitePhase::FilteringAccepted(tested, rank),
                SuiteAction::Filter {
                    filter: self.output_filters[rank],
                    file: numbered_file("ac", index, ".out"),
                },
            )
        } else {
            (SuitePhase::Comparing(tested), Self::compare(index))
        }
    }

    /// Starts the suite of the test case `index`: the data generator is to
    /// be launched.
    pub fn start(&self, index: u32) -> (r: (SuiteState, SuiteAction))
        ensures
            r.0 == (SuiteState { index, phase: SuitePhase::Generating }),
            r.1@ == self.spec_generate(index),
    {
        (
            SuiteState { index, phase: SuitePhase::Generating },
            SuiteAction::Launch {
                stage: Stage::LaunchDG,
                extra_args: self.case_arguments(index),
                input_file: None,
                output_file: numbered_file("data", index, ".in"),
                timeout: self.program_timeout,
            },
        )
    }

    /// Takes the suite one step further: from `state` and what happened
    /// outside to the next state and the next action.
    pub fn step(&self, state: SuiteState, event: SuiteEvent) -> (r: (SuiteState, SuiteAction))
        ensures
            r.0.index == state.index,
            (r.0.phase, r.1@) == self.spec_next(state.index, state.phase, event@),
    {
        let index = state.index;
        let (phase, action): (SuitePhase, SuiteAction) = match (state.phase, event) {
            (SuitePhase::Generating, SuiteEvent::Launched(Ok(LaunchOk::Success(_)))) => (
                SuitePhase::Testing,
                SuiteAction::Launch {
                    stage: Stage::LaunchTP,
                    extra_args: {
                        let none: Vec<String> = Vec::new();
                        assert(views(none@) =~= Seq::<Seq<char>>::empty());
                        none
                    },
                    input_file: Some(numbered_file("data", index, ".in")),
                    output_file: numbered_file("tested", index, ".out"),
                    timeout: self.program_timeout,
                },
            ),
            (SuitePhase::Generating, SuiteEvent::Launched(Ok(LaunchOk::Timeout(_)))) => (
                SuitePhase::Finished,
                SuiteAction::Finish(
                    LaunchSuiteResult {
                        index,
                        inner: unknown("Launch data generator failed: ", "Timeout"),
                    },
                ),
            ),
            (SuitePhase::Generating, SuiteEvent::Launched(Err(e))) => (
                SuitePhase::Finished,
                SuiteAction::Finish(
                    LaunchSuiteResult {
                        index,
                        inner: unknown(
                            "Launch data generator failed: Inner Error: ",
                            e.to_message().as_str(),
                        ),
                    },
                ),
            ),
            (SuitePhase::Testing, SuiteEvent::Launched(Ok(LaunchOk::Success(d)))) => (
                SuitePhase::Answering(d),
                SuiteAction::Launch {
                    stage: Stage::LaunchAC,
                    extra_args: self.case_arguments(index),
                    input_file: Some(numbered_file("data", index, ".in")),
                    output_file: numbered_file("ac", index, ".out"),
                    timeout: self.program_timeout,
                },
            ),
            (SuitePhase::Testing, SuiteEvent::Launched(Ok(LaunchOk::Timeout(d)))) => (
                SuitePhase::Finished,
                SuiteAction::Finish(LaunchSuiteResult { index, inner: LaunchSuiteEnum::TLE(d) }),
            ),
            (SuitePhase::Testing, SuiteEvent::Launched(Err(e))) => (
                SuitePhase::Finished,
                SuiteAction::Finish(
                    LaunchSuiteResult {
                        index,
                        inner: unknown("Launch tested program failed: ", e.to_message().as_str()),
                    },
                ),
            ),
            (SuitePhase::Answering(d), SuiteEvent::Launched(Ok(LaunchOk::Success(_)))) => self.filter_from(
                index,
                d,
                0,
            ),
            (SuitePhase::Answering(_), SuiteEvent::Launched(Ok(LaunchOk::Timeout(_)))) => (
                SuitePhase::Finished,
                SuiteAction::Finish(
                    LaunchSuiteResult {
                        index,
                        inner: unknown("Launch data generator failed: ", "Timeout"),
                    },
                ),
            ),
            (SuitePhase::Answering(_), SuiteEvent::Launched(Err(e))) => (
                SuitePhase::Finished,
                SuiteAction::Finish(
                    LaunchSuiteResult {
                        index,
                        inner: unknown(
                            "Launch data generator failed: Inner Error: ",
                            e.to_message().as_str(),
                        ),
                    },
                ),
            ),
            (SuitePhase::FilteringAccepted(d, rank), SuiteEvent::Filtered(Ok(_))) => {
                if rank < self.output_filters.len() {
                    (
                        SuitePhase::FilteringTested(d, rank),
                        SuiteAction::Filter {
                            filter: self.output_filters[rank],
                            file: numbered_file("tested", index, ".out"),
                        },
                    )
                } else {
                    (SuitePhase::Comparing(d), Self::compare(index))
                }
            },
            (SuitePhase::FilteringAccepted(_, _), SuiteEvent::Filtered(Err(e))) => (
                SuitePhase::Finished,
                SuiteAction::Finish(
                    LaunchSuiteResult {
                        index,
                        inner: unknown(
                            "Filter accepted output file failed: ",
                            e.to_message().as_str(),
                        ),
                    },
                ),
            ),
            (SuitePhase::FilteringTested(d, rank), SuiteEvent::Filtered(Ok(_))) => {
                if rank < self.output_filters.len() {
                    self.filter_from(index, d, rank + 1)
                } else {
                    (SuitePhase::Comparing(d), Self::compare(index))
                }
            },
            (SuitePhase::FilteringTested(_, _), SuiteEvent::Filtered(Err(e))) => (
                SuitePhase::Finished,
                SuiteAction::Finish(
                    LaunchSuiteResult {
                        index,
                        inner: unknown(
                            "Filter tested output file failed: ",
                            e.to_message().as_str(),
                        ),
                    },
                ),
            ),
            (SuitePhase::Comparing(d), SuiteEvent::Compared(Ok(DiffToolOk::Same))) => (
                SuitePhase::Finished,
                SuiteAction::Finish(
                    LaunchSuiteResult {
                        index,
                        inner: if d.nanos <= self.accepted_timeout.nanos {
                            LaunchSuiteEnum::AC(d)
                        } else {
                            LaunchSuiteEnum::TLE(d)
                        },
                    },
                ),
            ),
            (
                SuitePhase::Comparing(d),
                SuiteEvent::Compared(Ok(DiffToolOk::Different { log_path, log_success })),
            ) => (
                SuitePhase::Finished,
                SuiteAction::Finish(
                    LaunchSuiteResult { index, inner: LaunchSuiteEnum::WA(d, log_path, log_success) },
                ),
            ),
            (SuitePhase::Comparing(_), SuiteEvent::Compared(Err(e))) => (
                SuitePhase::Finished,
                SuiteAction::Finish(
                    LaunchSuiteResult {
                        index,
                        inner: unknown("Different tool failed: ", e.to_message().as_str()),
                    },
                ),
            ),
            _ => (
                SuitePhase::Finished,
                SuiteAction::Finish(
                    LaunchSuiteResult {
                        index,
                        inner: unknown("Unexpected event: ", "the suite waits for another"),
                    },
                ),
            ),
        };
        (SuiteState { index, phase }, action)
    }
}

} // verus!
