//! The tool that compares two output files, and what its answer means.

use crate::checker_error::{CheckerError, CheckerResult};
use crate::text::{decimal, lemma_views_push, lowercase, parse_u32, push_decimal, str_eq,
    str_to_u32, to_lowercase, views};
use vstd::prelude::*;
use vstd::string::*;

verus! {

/// The tool that compares output files.
#[derive(Debug, Clone)]
pub enum DiffTool {
    /// Windows `fc`, with the number of lines it may buffer.
    FC(Option<u32>),
    /// `diff`.
    Diff,
    /// A tool of the user's own: the program and its first arguments.
    Custom(Vec<String>),
}

/// What the comparison found.
#[derive(Debug)]
pub enum DiffToolOk {
    /// The files hold the same.
    Same,
    /// The files differ; the difference was to be written to `log_path`,
    /// and `log_success` tells whether that went well.
    Different { log_path: String, log_success: bool },
}

/// What came back from running the tool: whether it exited with success,
/// or the message of the error that kept it from running.
pub type DiffOutput = Result<bool, String>;

/// A tool in the form in which contracts speak of it.
pub enum DiffToolView {
    FC(Option<u32>),
    Diff,
    Custom(Seq<Seq<char>>),
}

impl View for DiffTool {
    type V = DiffToolView;

    open spec fn view(&self) -> DiffToolView {
        match self {
            DiffTool::FC(n) => DiffToolView::FC(*n),
            DiffTool::Diff => DiffToolView::Diff,
            DiffTool::Custom(command) => DiffToolView::Custom(views(command@)),
        }
    }
}

impl DiffTool {
    /// Whether the tool names a program to run: a tool of the user's own
    /// needs at least the program.
    pub open spec fn runnable(&self) -> bool {
        self matches DiffTool::Custom(command) ==> command@.len() > 0
    }

    /// The program that the tool runs.
    pub open spec fn spec_program(&self) -> Seq<char> {
        match self {
            DiffTool::FC(_) => "fc"@,
            DiffTool::Diff => "diff"@,
            DiffTool::Custom(command) => command@[0]@,
        }
    }

    /// The arguments that the tool is given before the two files.
    pub open spec fn spec_leading_args(&self) -> Seq<Seq<char>> {
        match self {
            DiffTool::FC(Some(n)) => seq!["/LB"@ + decimal(*n as nat)],
            DiffTool::FC(None) => Seq::empty(),
            DiffTool::Diff => Seq::empty(),
            DiffTool::Custom(command) => views(command@).skip(1),
        }
    }

    /// The tool that the configuration list `value` stands for, or the
    /// message that says why it stands for none. The name of the tool comes
    /// first, in any case of letters; `fc` may be followed by a number of
    /// lines, `custom` is followed by a command.
    pub open spec fn spec_try_from(value: Seq<Seq<char>>) -> Result<DiffToolView, Seq<char>> {
        if value.len() == 0 {
            Err("`diff_tool` config list cannot be empty"@)
        } else if lowercase(value[0]) == "fc"@ {
            if value.len() == 1 {
                Ok(DiffToolView::FC(None))
            } else {
                match parse_u32(value[1]) {
                    Some(n) => Ok(DiffToolView::FC(Some(n))),
                    None => Err("Expected a positive number in field `fc[1]`, found "@ + value[1]),
                }
            }
        } else if lowercase(value[0]) == "diff"@ {
            Ok(DiffToolView::Diff)
        } else if lowercase(value[0]) == "custom"@ {
            Ok(DiffToolView::Custom(value.skip(1)))
        } else {
            Err("Rule "@ + lowercase(value[0]) + " is not defined."@)
        }
    }

    /// Whether the tool names a program to run.
    pub fn is_runnable(&self) -> (r: bool)
        ensures
            r == self.runnable(),
    {
        match self {
            DiffTool::Custom(command) => command.len() > 0,
            _ => true,
        }
    }

    /// The program to run and its arguments for comparing `files`.
    pub fn get_command(&self, files: (&String, &String)) -> (r: (String, Vec<String>))
        requires
            self.runnable(),
        ensures
            r.0@ == self.spec_program(),
            views(r.1@) == self.spec_leading_args() + seq![files.0@, files.1@],
    {
        let (program, mut args): (String, Vec<String>) = match self {
            DiffTool::FC(Some(n)) => {
                let mut arg = "/LB".to_owned();
                push_decimal(&mut arg, *n as u128);
                let mut args: Vec<String> = Vec::new();
                args.push(arg);
                assert(views(args@) =~= seq!["/LB"@ + decimal(*n as nat)]);
                ("fc".to_owned(), args)
            },
            DiffTool::FC(None) => {
                let args: Vec<String> = Vec::new();
                assert(views(args@) =~= Seq::<Seq<char>>::empty());
                ("fc".to_owned(), args)
            },
            DiffTool::Diff => {
                let args: Vec<String> = Vec::new();
                assert(views(args@) =~= Seq::<Seq<char>>::empty());
                ("diff".to_owned(), args)
            },
            DiffTool::Custom(command) => {
                let mut args: Vec<String> = Vec::new();
                let mut i: usize = 1;
                assert(views(args@) =~= views(command@).subrange(1, 1));
                while i < command.len()
                    invariant
                        1 <= i <= command.len(),
                        views(args@) == views(command@).subrange(1, i as int),
                    decreases command.len() - i,
                {
                    proof {
                        lemma_views_push(args@, command[i as int]);
                        assert(views(command@).subrange(1, i as int).push(command[i as int]@)
                            =~= views(command@).subrange(1, i + 1));
                    }
                    args.push(command[i].clone());
                    i += 1;
                }
                assert(views(command@).subrange(1, command.len() as int) =~= views(
                    command@,
                ).skip(1));
                (command[0].clone(), args)
            },
        };
        let ghost leading = views(args@);
        args.push(files.0.clone());
        args.push(files.1.clone());
        assert(views(args@) =~= leading + seq![files.0@, files.1@]);
        (program, args)
    }

    /// Whether the difference is to be written to the log: when the tool
    /// ran and did not exit with success.
    pub fn needs_log(output: &DiffOutput) -> (r: bool)
        ensures
            r == (*output == Ok::<bool, String>(false)),
    {
        match output {
            Ok(success) => !*success,
            Err(_) => false,
        }
    }

    /// What `output` means for the comparison that ran `program` with
    /// `args`: the files are the same where the tool exited with success,
    /// different where it exited otherwise, and the comparison failed where
    /// the tool could not be run. `log_success` tells whether writing the
    /// difference to `dump_diff_file` went well.
    pub fn get_result(
        output: DiffOutput,
        dump_diff_file: &String,
        log_success: bool,
        args: Vec<String>,
        program: String,
    ) -> (r: CheckerResult<DiffToolOk>)
        ensures
            match output {
                Ok(true) => r matches Ok(DiffToolOk::Same),
                Ok(false) => r matches Ok(DiffToolOk::Different { log_path, log_success: written })
                    && log_path@ == dump_diff_file@ && written == log_success,
                Err(err) => r matches Err(e) && (*e matches CheckerError::DiffToolError {
                    command,
                    args: a,
                    err: msg,
                } && command == program && a == args && msg == err),
            },
    {
        match output {
            Ok(true) => Ok(DiffToolOk::Same),
            Ok(false) => Ok(
                DiffToolOk::Different { log_path: dump_diff_file.clone(), log_success },
            ),
            Err(err) => Err(Box::new(CheckerError::DiffToolError { command: program, args, err })),
        }
    }

    /// The tool that the configuration list `value` stands for.
    pub fn try_from(value: Vec<String>) -> (r: Result<DiffTool, String>)
        ensures
            match r {
                Ok(tool) => DiffTool::spec_try_from(views(value@)) == Ok::<
                    DiffToolView,
                    Seq<char>,
                >(tool@),
                Err(msg) => DiffTool::spec_try_from(views(value@)) == Err::<
                    DiffToolView,
                    Seq<char>,
                >(msg@),
            },
    {
        if value.len() == 0 {
            return Err("`diff_tool` config list cannot be empty".to_owned());
        }
        assert(views(value@)[0] == value[0]@);
        let name = to_lowercase(value[0].as_str());
        if str_eq(name.as_str(), "fc") {
            if value.len() == 1 {
                Ok(DiffTool::FC(None))
            } else {
                assert(views(value@)[1] == value[1]@);
                match str_to_u32(value[1].as_str()) {
                    Some(n) => Ok(DiffTool::FC(Some(n))),
                    None => {
                        let mut msg = "Expected a positive number in field `fc[1]`, found ".to_owned();
                        msg.append(value[1].as_str());
                        Err(msg)
                    },
                }
            }
        } else if str_eq(name.as_str(), "diff") {
            Ok(DiffTool::Diff)
        } else if str_eq(name.as_str(), "custom") {
            let mut command: Vec<String> = Vec::new();
            let mut i: usize = 1;
            assert(views(command@) =~= views(value@).subrange(1, 1));
            while i < value.len()
                invariant
                    1 <= i <= value.len(),
                    views(command@) == views(value@).subrange(1, i as int),
                decreases value.len() - i,
            {
                proof {
                    lemma_views_push(command@, value[i as int]);
                    assert(views(value@).subrange(1, i as int).push(value[i as int]@) =~= views(
                        value@,
                    ).subrange(1, i + 1));
                }
                command.push(value[i].clone());
                i += 1;
            }
            assert(views(value@).subrange(1, value.len() as int) =~= views(value@).skip(1));
            Ok(DiffTool::Custom(command))
        } else {
            let mut msg = "Rule ".to_owned();
            msg.append(name.as_str());
            msg.append(" is not defined.");
            Err(msg)
        }
    }
}

} // verus!
