//! Which of the files of a run are removed after it.

use crate::launch::{accepted_file, data_file, numbered_file, tested_file};
use crate::scheduler::spec_dispatch_order;
use crate::text::{message_view, str_eq, views};
use vstd::prelude::*;
use vstd::string::*;

verus! {

/// When the files that a run made are removed.
#[derive(Debug, Clone, Copy, PartialEq, Eq, Structural)]
pub enum AutoRemoveFiles {
    /// Those of the accepted test cases.
    AC,
    /// All of them.
    Always,
    /// None.
    Never,
}

/// What is to be removed after a run: the files, named within the working
/// directory and in the order of removal, and whether the working
/// directory goes too, once all the files are gone.
#[derive(Debug)]
pub struct RemovalPlan {
    pub files: Vec<String>,
    pub remove_work_dir: bool,
}

/// The files of the test case `index`: its input and the two outputs.
pub open spec fn suite_files(index: u32) -> Seq<Seq<char>> {
    seq![data_file(index), accepted_file(index), tested_file(index)]
}

/// The files of the test cases `cases`, case by case.
pub open spec fn files_of(cases: Seq<u32>) -> Seq<Seq<char>>
    decreases cases.len(),
{
    if cases.len() == 0 {
        Seq::empty()
    } else {
        files_of(cases.drop_last()) + suite_files(cases.last())
    }
}

/// Appends the files of the test case `index` to `files`.
fn push_suite_files(files: &mut Vec<String>, index: u32)
    ensures
        views(final(files)@) == views(old(files)@) + suite_files(index),
{
    files.push(numbered_file("data", index, ".in"));
    files.push(numbered_file("ac", index, ".out"));
    files.push(numbered_file("tested", index, ".out"));
    assert(views(files@) =~= views(old(files)@) + suite_files(index));
}

impl AutoRemoveFiles {
    /// The test cases whose files are removed, in the order of removal.
    pub open spec fn spec_cases(self, ac_launch_indexes: Seq<u32>, test_cases: u32) -> Seq<u32> {
        match self {
            AutoRemoveFiles::Never => Seq::empty(),
            AutoRemoveFiles::Always => spec_dispatch_order(test_cases, 1),
            AutoRemoveFiles::AC => ac_launch_indexes,
        }
    }

    /// Whether the working directory is removed: only one that this run
    /// made, and only when the files of all test cases are removed.
    pub open spec fn spec_remove_work_dir(
        self,
        ac_launch_indexes: Seq<u32>,
        test_cases: u32,
        created_work_dir: bool,
    ) -> bool {
        match self {
            AutoRemoveFiles::Never => false,
            AutoRemoveFiles::Always => created_work_dir,
            AutoRemoveFiles::AC => created_work_dir && ac_launch_indexes.len() == test_cases,
        }
    }

    /// The setting that the configuration calls `value`, or the message
    /// that says that it calls none so.
    pub open spec fn spec_try_from(value: Seq<char>) -> Result<AutoRemoveFiles, Seq<char>> {
        if value == "ac"@ {
            Ok(AutoRemoveFiles::AC)
        } else if value == "always"@ {
            Ok(AutoRemoveFiles::Always)
        } else if value == "never"@ {
            Ok(AutoRemoveFiles::Never)
        } else {
            Err("`"@ + value + "` is not allowed in field `auto_remove_files`"@)
        }
    }

    /// What is to be removed after a run of `test_cases` cases of which
    /// `ac_launch_indexes` were accepted.
    pub fn run(&self, ac_launch_indexes: Vec<u32>, test_cases: u32, created_work_dir: bool) -> (r:
        RemovalPlan)
        ensures
            views(r.files@) == files_of(self.spec_cases(ac_launch_indexes@, test_cases)),
            r.remove_work_dir == self.spec_remove_work_dir(
                ac_launch_indexes@,
                test_cases,
                created_work_dir,
            ),
    {
        let mut files: Vec<String> = Vec::new();
        assert(views(files@) =~= Seq::<Seq<char>>::empty());
        match self {
            AutoRemoveFiles::Never => RemovalPlan { files, remove_work_dir: false },
            AutoRemoveFiles::Always => {
                let mut i: u32 = 0;
                while i < test_cases
                    invariant
                        i <= test_cases,
                        views(files@) == files_of(spec_dispatch_order(i, 1)),
                    decreases test_cases - i,
                {
                    i += 1;
                    proof {
                        assert(spec_dispatch_order(i, 1).drop_last() =~= spec_dispatch_order(
                            (i - 1) as u32,
                            1,
                        ));
                        assert(spec_dispatch_order(i, 1).last() == i);
                    }
                    push_suite_files(&mut files, i);
                }
                RemovalPlan { files, remove_work_dir: created_work_dir }
            },
            AutoRemoveFiles::AC => {
                let mut k: usize = 0;
                assert(ac_launch_indexes@.take(0) =~= Seq::<u32>::empty());
                while k < ac_launch_indexes.len()
                    invariant
                        k <= ac_launch_indexes.len(),
                        views(files@) == files_of(ac_launch_indexes@.take(k as int)),
                    decreases ac_launch_indexes.len() - k,
                {
                    proof {
                        assert(ac_launch_indexes@.take(k + 1).drop_last()
                            =~= ac_launch_indexes@.take(k as int));
                        assert(ac_launch_indexes@.take(k + 1).last() == ac_launch_indexes[k as int]);
                    }
                    push_suite_files(&mut files, ac_launch_indexes[k]);
                    k += 1;
                }
                assert(ac_launch_indexes@.take(ac_launch_indexes.len() as int)
                    =~= ac_launch_indexes@);
                RemovalPlan {
                    files,
                    remove_work_dir: created_work_dir && ac_launch_indexes.len()
                        == test_cases as usize,
                }
            },
        }
    }

    /// The setting that the configuration calls `value`.
    pub fn try_from(value: &str) -> (r: Result<AutoRemoveFiles, String>)
        ensures
            message_view(r) == AutoRemoveFiles::spec_try_from(value@),
    {
        if str_eq(value, "ac") {
            Ok(AutoRemoveFiles::AC)
        } else if str_eq(value, "always") {
            Ok(AutoRemoveFiles::Always)
        } else if str_eq(value, "never") {
            Ok(AutoRemoveFiles::Never)
        } else {
            let mut msg = "`".to_owned();
            msg.append(value);
            msg.append("` is not allowed in field `auto_remove_files`");
            Err(msg)
        }
    }
}

} // verus!
