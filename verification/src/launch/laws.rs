//! What holds of every suite, whatever the programs do.

use crate::checker_error::Stage;
use crate::launch::{accepted_file, data_file, log_file, tested_file, Action, Compared, Event,
    LaunchOk, SuiteLauncher, SuitePhase, Verdict};
use crate::text::{decimal, lemma_decimal_injective, lemma_framed_injective};
use crate::util::TimeSpan;
use vstd::prelude::*;

verus! {

/// `count` events of a filter that did its work.
pub open spec fn filtered(count: nat) -> Seq<Event> {
    Seq::new(count, |i: int| Event::Filtered(Ok(())))
}

/// The events of a suite in which the harness works: the three programs
/// finish, the tested one after the time `tested`, every filter does its
/// work on both outputs, and the comparison gives `compared`.
pub open spec fn smooth_events(
    launcher: SuiteLauncher,
    generated: TimeSpan,
    tested: TimeSpan,
    answered: TimeSpan,
    compared: Compared,
) -> Seq<Event> {
    seq![
        Event::Launched(Ok(LaunchOk::Success(generated))),
        Event::Launched(Ok(LaunchOk::Success(tested))),
        Event::Launched(Ok(LaunchOk::Success(answered))),
    ] + filtered(2 * launcher.output_filters@.len()) + seq![Event::Compared(Ok(compared))]
}

/// Whether the action launches the accepted program.
pub open spec fn launches_accepted(action: Action) -> bool {
    action matches Action::Launch { stage, .. } && stage == Stage::LaunchAC
}

/// Once the filters from some rank on have done their work, the suite
/// stands at the comparison.
pub proof fn lemma_filters_lead_to_comparison(
    launcher: SuiteLauncher,
    index: u32,
    tested: TimeSpan,
    rank: usize,
    rest: Seq<Event>,
)
    requires
        rank < launcher.output_filters@.len(),
    ensures
        launcher.spec_outcome(
            index,
            SuitePhase::FilteringAccepted(tested, rank),
            filtered((2 * (launcher.output_filters@.len() - rank)) as nat) + rest,
        ) == launcher.spec_outcome(index, SuitePhase::Comparing(tested), rest),
    decreases launcher.output_filters@.len() - rank,
{
    let n = launcher.output_filters.len();
    assert(n == launcher.output_filters@.len());
    let left = (2 * (n - rank)) as nat;
    let events = filtered(left) + rest;
    let after_one = filtered((left - 1) as nat) + rest;
    let after_two = filtered((left - 2) as nat) + rest;
    assert(events[0] == Event::Filtered(Ok(())));
    assert(events.drop_first() =~= after_one);
    assert(after_one[0] == Event::Filtered(Ok(())));
    assert(after_one.drop_first() =~= after_two);
    assert(launcher.spec_outcome(index, SuitePhase::FilteringAccepted(tested, rank), events)
        == launcher.spec_outcome(index, SuitePhase::FilteringTested(tested, rank), after_one));
    assert(launcher.spec_outcome(index, SuitePhase::FilteringTested(tested, rank), after_one)
        == launcher.spec_outcome(
        index,
        launcher.spec_filter_from(index, tested, rank + 1).0,
        after_two,
    ));
    if rank + 1 < n {
        lemma_filters_lead_to_comparison(launcher, index, tested, (rank + 1) as usize, rest);
    } else {
        assert(after_two =~= rest);
    }
}

/// A suite in which the harness works and the two outputs are the same
/// ends with the verdict that the time of the tested program calls for.
pub proof fn lemma_same_output_is_judged_by_time(
    launcher: SuiteLauncher,
    index: u32,
    generated: TimeSpan,
    tested: TimeSpan,
    answered: TimeSpan,
)
    ensures
        launcher.spec_outcome(
            index,
            SuitePhase::Generating,
            smooth_events(launcher, generated, tested, answered, Compared::Same),
        ) == Some(launcher.spec_timing(tested)),
{
    let n = launcher.output_filters@.len();
    let last = seq![Event::Compared(Ok(Compared::Same))];
    let events = smooth_events(launcher, generated, tested, answered, Compared::Same);
    let from_tested = seq![
        Event::Launched(Ok(LaunchOk::Success(tested))),
        Event::Launched(Ok(LaunchOk::Success(answered))),
    ] + filtered(2 * n) + last;
    let from_answered = seq![Event::Launched(Ok(LaunchOk::Success(answered)))] + filtered(2 * n)
        + last;
    let from_filters = filtered(2 * n) + last;
    assert(events[0] == Event::Launched(Ok(LaunchOk::Success(generated))));
    assert(events.drop_first() =~= from_tested);
    assert(from_tested[0] == Event::Launched(Ok(LaunchOk::Success(tested))));
    assert(from_tested.drop_first() =~= from_answered);
    assert(from_answered[0] == Event::Launched(Ok(LaunchOk::Success(answered))));
    assert(from_answered.drop_first() =~= from_filters);
    assert(last[0] == Event::Compared(Ok(Compared::Same)));
    assert(launcher.spec_outcome(index, SuitePhase::Comparing(tested), last) == Some(
        launcher.spec_timing(tested),
    ));
    assert(launcher.spec_outcome(index, SuitePhase::Generating, events) == launcher.spec_outcome(
        index,
        SuitePhase::Testing,
        from_tested,
    ));
    assert(launcher.spec_outcome(index, SuitePhase::Testing, from_tested)
        == launcher.spec_outcome(index, SuitePhase::Answering(tested), from_answered));
    assert(launcher.spec_outcome(index, SuitePhase::Answering(tested), from_answered)
        == launcher.spec_outcome(
        index,
        launcher.spec_filter_from(index, tested, 0).0,
        from_filters,
    ));
    if n > 0 {
        lemma_filters_lead_to_comparison(launcher, index, tested, 0, last);
    } else {
        assert(from_filters =~= last);
    }
}

/// Where the harness works, the outputs are the same and the tested program
/// took no longer than the time for acceptance, the verdict is accepted,
/// for every test case.
pub proof fn lemma_same_output_in_time_is_accepted(
    launcher: SuiteLauncher,
    index: u32,
    generated: TimeSpan,
    tested: TimeSpan,
    answered: TimeSpan,
)
    requires
        tested.nanos <= launcher.accepted_timeout.nanos,
    ensures
        launcher.spec_outcome(
            index,
            SuitePhase::Generating,
            smooth_events(launcher, generated, tested, answered, Compared::Same),
        ) == Some(Verdict::AC(tested)),
{
    lemma_same_output_is_judged_by_time(launcher, index, generated, tested, answered);
}

/// A tested program that finished before it was given up, but after the
/// time for acceptance, exceeds the time limit even though its output is
/// the same as that of the accepted program.
pub proof fn lemma_same_output_too_late_is_tle(
    launcher: SuiteLauncher,
    index: u32,
    generated: TimeSpan,
    tested: TimeSpan,
    answered: TimeSpan,
)
    requires
        tested.nanos > launcher.accepted_timeout.nanos,
    ensures
        launcher.spec_outcome(
            index,
            SuitePhase::Generating,
            smooth_events(launcher, generated, tested, answered, Compared::Same),
        ) == Some(Verdict::TLE(tested)),
{
    lemma_same_output_is_judged_by_time(launcher, index, generated, tested, answered);
}

/// A tested program that is given up exceeds the time limit, and the suite
/// ends there: after the data generator only the tested program is
/// launched, never the accepted one, whatever comes in later.
pub proof fn lemma_given_up_program_is_tle(
    launcher: SuiteLauncher,
    index: u32,
    generated: TimeSpan,
    elapsed: TimeSpan,
    later: Seq<Event>,
)
    ensures
        ({
            let events = seq![
                Event::Launched(Ok(LaunchOk::Success(generated))),
                Event::Launched(Ok(LaunchOk::Timeout(elapsed))),
            ] + later;
            &&& launcher.spec_outcome(index, SuitePhase::Generating, events) == Some(
                Verdict::TLE(elapsed),
            )
            &&& launcher.spec_suite(index, events) == seq![
                launcher.spec_generate(index),
                launcher.spec_test(index),
                Action::Finish(index, Verdict::TLE(elapsed)),
            ]
            &&& forall|k: int|
                0 <= k < launcher.spec_suite(index, events).len() ==> !launches_accepted(
                    #[trigger] launcher.spec_suite(index, events)[k],
                )
        }),
{
    let events = seq![
        Event::Launched(Ok(LaunchOk::Success(generated))),
        Event::Launched(Ok(LaunchOk::Timeout(elapsed))),
    ] + later;
    let from_tested = seq![Event::Launched(Ok(LaunchOk::Timeout(elapsed)))] + later;
    assert(events[0] == Event::Launched(Ok(LaunchOk::Success(generated))));
    assert(events.drop_first() =~= from_tested);
    assert(from_tested[0] == Event::Launched(Ok(LaunchOk::Timeout(elapsed))));
    assert(launcher.spec_outcome(index, SuitePhase::Testing, from_tested) == Some(
        Verdict::TLE(elapsed),
    ));
    assert(launcher.spec_outcome(index, SuitePhase::Generating, events) == launcher.spec_outcome(
        index,
        SuitePhase::Testing,
        from_tested,
    ));
    assert(launcher.spec_course(index, SuitePhase::Testing, from_tested) == seq![
        Action::Finish(index, Verdict::TLE(elapsed)),
    ]);
    assert(launcher.spec_course(index, SuitePhase::Generating, events) == seq![
        launcher.spec_test(index),
    ] + launcher.spec_course(index, SuitePhase::Testing, from_tested));
    assert(launcher.spec_suite(index, events) =~= seq![
        launcher.spec_generate(index),
        launcher.spec_test(index),
        Action::Finish(index, Verdict::TLE(elapsed)),
    ]);
}

/// The files of the test case `index`: its input, the two outputs and the
/// file for their difference.
pub open spec fn case_files(index: u32) -> Set<Seq<char>> {
    set![data_file(index), accepted_file(index), tested_file(index), log_file(index)]
}

/// The four files of a test case are four different files.
pub proof fn lemma_files_of_a_case_differ(index: u32)
    ensures
        data_file(index) != accepted_file(index),
        data_file(index) != tested_file(index),
        data_file(index) != log_file(index),
        accepted_file(index) != tested_file(index),
        accepted_file(index) != log_file(index),
        tested_file(index) != log_file(index),
{
    reveal_strlit("data");
    reveal_strlit("ac");
    reveal_strlit("tested");
    reveal_strlit("wa");
    let d = decimal(index as nat);
    assert(data_file(index)[0] == 'd');
    assert(accepted_file(index)[0] == 'a');
    assert(tested_file(index)[0] == 't');
    assert(log_file(index)[0] == 'w');
}

/// Suites of different test cases work on different files: no file of one
/// case is a file of another.
pub proof fn lemma_cases_share_no_file(first: u32, second: u32)
    requires
        first != second,
    ensures
        case_files(first).disjoint(case_files(second)),
{
    reveal_strlit("data");
    reveal_strlit("ac");
    reveal_strlit("tested");
    reveal_strlit("wa");
    let a = decimal(first as nat);
    let b = decimal(second as nat);
    assert(data_file(first)[0] == 'd' && data_file(second)[0] == 'd');
    assert(accepted_file(first)[0] == 'a' && accepted_file(second)[0] == 'a');
    assert(tested_file(first)[0] == 't' && tested_file(second)[0] == 't');
    assert(log_file(first)[0] == 'w' && log_file(second)[0] == 'w');
    if data_file(first) == data_file(second) {
        lemma_framed_injective("data"@, a, b, ".in"@);
        lemma_decimal_injective(first as nat, second as nat);
    }
    if accepted_file(first) == accepted_file(second) {
        lemma_framed_injective("ac"@, a, b, ".out"@);
        lemma_decimal_injective(first as nat, second as nat);
    }
    if tested_file(first) == tested_file(second) {
        lemma_framed_injective("tested"@, a, b, ".out"@);
        lemma_decimal_injective(first as nat, second as nat);
    }
    if log_file(first) == log_file(second) {
        lemma_framed_injective("wa"@, a, b, ".log"@);
        lemma_decimal_injective(first as nat, second as nat);
    }
}

/// Whether the event tells of a failure of the harness.
pub open spec fn is_failure(event: Event) -> bool {
    match event {
        Event::Launched(r) => r is Err,
        Event::Filtered(r) => r is Err,
        Event::Compared(r) => r is Err,
    }
}

/// A failure of the harness never gets further than its own test case: in
/// whatever phase it comes in, the suite ends with the verdict unknown.
pub proof fn lemma_failure_is_unknown(
    launcher: SuiteLauncher,
    index: u32,
    phase: SuitePhase,
    event: Event,
)
    requires
        is_failure(event),
    ensures
        launcher.spec_next(index, phase, event).0 == SuitePhase::Finished,
        launcher.spec_next(index, phase, event).1 matches Action::Finish(i, verdict) && i == index
            && verdict is UK,
{
}

/// A suite that has given its verdict launches nothing more.
pub proof fn lemma_finished_suite_stays_finished(launcher: SuiteLauncher, index: u32, event: Event)
    ensures
        launcher.spec_next(index, SuitePhase::Finished, event).0 == SuitePhase::Finished,
        launcher.spec_next(index, SuitePhase::Finished, event).1 is Finish,
{
}

/// Every verdict of a suite is given for the test case of the suite.
pub proof fn lemma_verdict_is_for_the_case(
    launcher: SuiteLauncher,
    index: u32,
    phase: SuitePhase,
    event: Event,
)
    ensures
        launcher.spec_next(index, phase, event).1 matches Action::Finish(i, _) ==> i == index,
{
}

} // verus!
