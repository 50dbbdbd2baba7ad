//! The plan of a run, and the tally of its verdicts.

use crate::launch::{LaunchSuiteEnum, LaunchSuiteResult, Verdict};
use vstd::prelude::*;

verus! {

/// The test cases in the order in which their suites are handed to the
/// workers: `1` to `test_cases`, ascending, however many workers there are.
pub open spec fn spec_dispatch_order(test_cases: u32, test_threads: u32) -> Seq<u32> {
    Seq::new(test_cases as nat, |i: int| (i + 1) as u32)
}

/// The milliseconds that each worker sleeps to warm up, before the first
/// suite: half a second, and ten milliseconds more from worker to worker.
pub open spec fn spec_warmup_delays(test_threads: u32) -> Seq<u64> {
    Seq::new(test_threads as nat, |i: int| (500 + 10 * i) as u64)
}

/// The test cases in the order in which their suites are handed to the
/// workers.
pub fn dispatch_order(test_cases: u32, test_threads: u32) -> (r: Vec<u32>)
    ensures
        r@ == spec_dispatch_order(test_cases, test_threads),
{
    let mut r: Vec<u32> = Vec::new();
    let mut index: u32 = 0;
    while index < test_cases
        invariant
            index <= test_cases,
            r@ == spec_dispatch_order(index, test_threads),
        decreases test_cases - index,
    {
        index += 1;
        r.push(index);
        assert(r@ =~= spec_dispatch_order(index, test_threads));
    }
    r
}

/// The milliseconds that each worker sleeps to warm up.
pub fn warmup_delays(test_threads: u32) -> (r: Vec<u64>)
    ensures
        r@ == spec_warmup_delays(test_threads),
{
    let mut r: Vec<u64> = Vec::new();
    let mut i: u32 = 0;
    while i < test_threads
        invariant
            i <= test_threads,
            r@ == spec_warmup_delays(i),
        decreases test_threads - i,
    {
        r.push(500 + (i as u64) * 10);
        i += 1;
        assert(r@ =~= spec_warmup_delays(i));
    }
    r
}

/// Every test case from `1` to `test_cases` is dispatched exactly once, and
/// nothing else is, whatever the number of workers: the order holds
/// `test_cases` indices, all different, and each case at its own place.
pub proof fn lemma_each_case_dispatched_once(test_cases: u32, test_threads: u32)
    ensures
        spec_dispatch_order(test_cases, test_threads).len() == test_cases,
        forall|k: int|
            0 <= k < test_cases ==> 1 <= #[trigger] spec_dispatch_order(
                test_cases,
                test_threads,
            )[k] <= test_cases,
        forall|index: u32|
            1 <= index <= test_cases ==> #[trigger] spec_dispatch_order(
                test_cases,
                test_threads,
            ).contains(index),
        spec_dispatch_order(test_cases, test_threads).no_duplicates(),
        spec_dispatch_order(test_cases, test_threads) == spec_dispatch_order(test_cases, 1),
{
    let order = spec_dispatch_order(test_cases, test_threads);
    assert forall|index: u32| 1 <= index <= test_cases implies #[trigger] order.contains(
        index,
    ) by {
        assert(order[index - 1] == index);
    }
    assert(order =~= spec_dispatch_order(test_cases, 1));
}

/// The four kinds of verdict, in the order in which they are counted.
#[derive(Debug, Clone, Copy, PartialEq, Eq, Structural)]
pub enum Category {
    AC,
    UK,
    TLE,
    WA,
}

/// The kind of a verdict.
pub open spec fn category(verdict: Verdict) -> Category {
    match verdict {
        Verdict::AC(_) => Category::AC,
        Verdict::UK(_) => Category::UK,
        Verdict::TLE(_) => Category::TLE,
        Verdict::WA(_, _, _) => Category::WA,
    }
}

/// What a tally holds: how many verdicts of each kind came in, and the test
/// cases that were accepted, in the order of arrival.
pub struct Counts {
    pub test_cases: nat,
    pub ac: nat,
    pub uk: nat,
    pub tle: nat,
    pub wa: nat,
    pub ac_launch_indexes: Seq<u32>,
}

impl Counts {
    /// The number of verdicts that came in.
    pub open spec fn received(self) -> nat {
        self.ac + self.uk + self.tle + self.wa
    }

    /// The counts before any verdict came in.
    pub open spec fn none(test_cases: nat) -> Counts {
        Counts { test_cases, ac: 0, uk: 0, tle: 0, wa: 0, ac_launch_indexes: Seq::empty() }
    }

    /// The counts after one more verdict, for the case `index`. Once a
    /// verdict came in for each test case, nothing more is counted.
    pub open spec fn with(self, index: u32, verdict: Verdict) -> Counts {
        if self.received() >= self.test_cases {
            self
        } else {
            match category(verdict) {
                Category::AC => Counts {
                    ac: self.ac + 1,
                    ac_launch_indexes: self.ac_launch_indexes.push(index),
                    ..self
                },
                Category::UK => Counts { uk: self.uk + 1, ..self },
                Category::TLE => Counts { tle: self.tle + 1, ..self },
                Category::WA => Counts { wa: self.wa + 1, ..self },
            }
        }
    }

    /// The counts after the verdicts `results` came in, in this order.
    pub open spec fn with_all(self, results: Seq<(u32, Verdict)>) -> Counts
        decreases results.len(),
    {
        if results.len() == 0 {
            self
        } else {
            self.with_all(results.drop_last()).with(results.last().0, results.last().1)
        }
    }
}

/// The tally of the verdicts of a run.
pub struct LaunchTally {
    test_cases: u32,
    ac: u32,
    uk: u32,
    tle: u32,
    wa: u32,
    ac_launch_indexes: Vec<u32>,
}

impl View for LaunchTally {
    type V = Counts;

    closed spec fn view(&self) -> Counts {
        Counts {
            test_cases: self.test_cases as nat,
            ac: self.ac as nat,
            uk: self.uk as nat,
            tle: self.tle as nat,
            wa: self.wa as nat,
            ac_launch_indexes: self.ac_launch_indexes@,
        }
    }
}

impl LaunchTally {
    #[verifier::type_invariant]
    spec fn inv(self) -> bool {
        self.ac + self.uk + self.tle + self.wa <= self.test_cases
    }

    /// The tally of a run of `test_cases` cases, before any verdict.
    pub fn new(test_cases: u32) -> (r: LaunchTally)
        ensures
            r@ == Counts::none(test_cases as nat),
    {
        LaunchTally { test_cases, ac: 0, uk: 0, tle: 0, wa: 0, ac_launch_indexes: Vec::new() }
    }

    /// Whether a verdict came in for each test case.
    pub fn is_complete(&self) -> (r: bool)
        ensures
            r == (self@.received() >= self@.test_cases),
            self@.received() <= self@.test_cases,
    {
        proof {
            use_type_invariant(self);
        }
        self.ac + self.uk + self.tle + self.wa >= self.test_cases
    }

    /// Counts the verdict `result`. Returns whether it was counted: once
    /// the tally is complete, nothing more is.
    pub fn record(&mut self, result: &LaunchSuiteResult) -> (r: bool)
        ensures
            final(self)@ == old(self)@.with(result.index, result.inner@),
            r == (old(self)@.received() < old(self)@.test_cases),
    {
        if self.is_complete() {
            return false;
        }
        let mut taken = LaunchTally::new(0);
        std::mem::swap(self, &mut taken);
        proof {
            use_type_invariant(&taken);
        }
        let LaunchTally { test_cases, mut ac, mut uk, mut tle, mut wa, mut ac_launch_indexes } =
            taken;
        match &result.inner {
            LaunchSuiteEnum::AC(_) => {
                ac += 1;
                ac_launch_indexes.push(result.index);
            },
            LaunchSuiteEnum::UK(_) => {
                uk += 1;
            },
            LaunchSuiteEnum::TLE(_) => {
                tle += 1;
            },
            LaunchSuiteEnum::WA(_, _, _) => {
                wa += 1;
            },
        }
        *self = LaunchTally { test_cases, ac, uk, tle, wa, ac_launch_indexes };
        true
    }

    /// How many verdicts of each kind came in: accepted, unknown, time
    /// limit exceeded and wrong answer, in this order.
    pub fn counts(&self) -> (r: [u32; 4])
        ensures
            r[0] == self@.ac,
            r[1] == self@.uk,
            r[2] == self@.tle,
            r[3] == self@.wa,
    {
        [self.ac, self.uk, self.tle, self.wa]
    }

    /// The test cases that were accepted, in the order of arrival.
    pub fn ac_launch_indexes(&self) -> (r: &Vec<u32>)
        ensures
            r@ == self@.ac_launch_indexes,
    {
        &self.ac_launch_indexes
    }

    /// The number of test cases of the run.
    pub fn test_cases(&self) -> (r: u32)
        ensures
            r == self@.test_cases,
    {
        self.test_cases
    }
}

/// The indices of `results`, in order.
pub open spec fn indices(results: Seq<(u32, Verdict)>) -> Seq<u32> {
    Seq::new(results.len(), |i: int| results[i].0)
}

/// A tally counts every verdict that comes in until it is complete: after
/// `results`, as many verdicts are counted as came in, or one for each test
/// case if more came in.
pub proof fn lemma_tally_counts_each_result(test_cases: nat, results: Seq<(u32, Verdict)>)
    ensures
        Counts::none(test_cases).with_all(results).test_cases == test_cases,
        Counts::none(test_cases).with_all(results).received() == (if results.len()
            <= test_cases {
            results.len()
        } else {
            test_cases
        }),
    decreases results.len(),
{
    if results.len() > 0 {
        lemma_tally_counts_each_result(test_cases, results.drop_last());
    }
}

/// A tally is complete exactly when a verdict came in for each test case:
/// where the verdicts of all dispatched cases come in, in whatever order,
/// it is complete after the last of them and not before.
pub proof fn lemma_tally_complete_after_all(test_cases: nat, results: Seq<(u32, Verdict)>)
    ensures
        Counts::none(test_cases).with_all(results).received() >= test_cases <==> results.len()
            >= test_cases,
{
    lemma_tally_counts_each_result(test_cases, results);
}

/// Whether the verdict of the case `index` came in as accepted.
pub open spec fn came_in_accepted(results: Seq<(u32, Verdict)>, index: u32) -> bool {
    exists|i: int| 0 <= i < results.len() && (#[trigger] results[i]).0 == index && results[i].1 is AC
}

/// The accepted cases of a tally are cases whose verdict came in as
/// accepted; where no case came in twice, none is listed twice.
pub proof fn lemma_accepted_cases_came_in(test_cases: nat, results: Seq<(u32, Verdict)>)
    ensures
        forall|k: int|
            0 <= k < Counts::none(test_cases).with_all(results).ac_launch_indexes.len()
                ==> came_in_accepted(
                results,
                #[trigger] Counts::none(test_cases).with_all(results).ac_launch_indexes[k],
            ),
        Counts::none(test_cases).with_all(results).ac_launch_indexes.len() == Counts::none(
            test_cases,
        ).with_all(results).ac,
        indices(results).no_duplicates() ==> Counts::none(test_cases).with_all(
            results,
        ).ac_launch_indexes.no_duplicates(),
    decreases results.len(),
{
    let all = Counts::none(test_cases).with_all(results);
    if results.len() > 0 {
        let earlier = results.drop_last();
        let before = Counts::none(test_cases).with_all(earlier);
        lemma_accepted_cases_came_in(test_cases, earlier);
        assert forall|k: int| 0 <= k < all.ac_launch_indexes.len() implies came_in_accepted(
            results,
            #[trigger] all.ac_launch_indexes[k],
        ) by {
            if k < before.ac_launch_indexes.len() {
                assert(came_in_accepted(earlier, before.ac_launch_indexes[k]));
                let i = choose|i: int|
                    0 <= i < earlier.len() && (#[trigger] earlier[i]).0
                        == before.ac_launch_indexes[k] && earlier[i].1 is AC;
                assert(results[i] == earlier[i]);
            } else {
                let i = results.len() - 1;
                assert(results[i].0 == all.ac_launch_indexes[k] && results[i].1 is AC);
            }
        }
        if indices(results).no_duplicates() {
            assert forall|a: int, b: int|
                0 <= a < earlier.len() && 0 <= b < earlier.len() && a != b implies indices(
                earlier,
            )[a] != indices(earlier)[b] by {
                assert(indices(results)[a] == indices(earlier)[a]);
                assert(indices(results)[b] == indices(earlier)[b]);
            }
            assert(indices(earlier).no_duplicates());
            assert forall|a: int, b: int|
                0 <= a < all.ac_launch_indexes.len() && 0 <= b < all.ac_launch_indexes.len() && a
                    != b implies all.ac_launch_indexes[a] != all.ac_launch_indexes[b] by {
                let n = before.ac_launch_indexes.len() as int;
                if a < n && b < n {
                } else {
                    let old_one = if a < n {
                        a
                    } else {
                        b
                    };
                    assert(came_in_accepted(earlier, before.ac_launch_indexes[old_one]));
                    let i = choose|i: int|
                        0 <= i < earlier.len() && (#[trigger] earlier[i]).0
                            == before.ac_launch_indexes[old_one] && earlier[i].1 is AC;
                    assert(indices(results)[i] == earlier[i].0);
                    assert(indices(results)[results.len() - 1] == results.last().0);
                }
            }
        }
    }
}

/// The tally of a whole run: where as many verdicts come in as there are
/// test cases, for different cases from `1` to `test_cases` each, in
/// whatever order, the tally is complete with the last of them, every
/// verdict is counted, and the accepted cases are different cases of the
/// run.
pub proof fn lemma_whole_run_completes_the_tally(test_cases: u32, results: Seq<(u32, Verdict)>)
    requires
        results.len() == test_cases,
        indices(results).no_duplicates(),
        forall|i: int| 0 <= i < results.len() ==> 1 <= (#[trigger] results[i]).0 <= test_cases,
    ensures
        Counts::none(test_cases as nat).with_all(results).received() == test_cases,
        Counts::none(test_cases as nat).with_all(results.drop_last()).received() < test_cases
            || test_cases == 0,
        Counts::none(test_cases as nat).with_all(results).ac_launch_indexes.no_duplicates(),
        forall|k: int|
            0 <= k < Counts::none(test_cases as nat).with_all(results).ac_launch_indexes.len()
                ==> 1 <= #[trigger] Counts::none(test_cases as nat).with_all(
                results,
            ).ac_launch_indexes[k] <= test_cases,
{
    let all = Counts::none(test_cases as nat).with_all(results);
    lemma_tally_counts_each_result(test_cases as nat, results);
    if test_cases > 0 {
        lemma_tally_counts_each_result(test_cases as nat, results.drop_last());
    }
    lemma_accepted_cases_came_in(test_cases as nat, results);
    assert forall|k: int| 0 <= k < all.ac_launch_indexes.len() implies 1
        <= #[trigger] all.ac_launch_indexes[k] <= test_cases by {
        assert(came_in_accepted(results, all.ac_launch_indexes[k]));
    }
}

} // verus!
