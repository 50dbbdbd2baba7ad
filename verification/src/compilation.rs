//! Compiling the source file of a program: the command of the compiler and
//! what its answer means.

use crate::checker_error::{CheckerError, CheckerResult, Stage};
use crate::config::cf_parsing;
use crate::dyn_formatting::{dynamic_format, first_failure, format_each, formatted,
    formatted_texts, reports_in_stage, Dictionary, Formatted};
use crate::path_lib::FilePath;
use crate::text::views;
use vstd::prelude::*;
use vstd::string::*;

verus! {

/// How source files with some extension are compiled: the pattern of the
/// file that the compiler makes, the flag for optimisation, the compiler
/// and the patterns of its arguments.
#[derive(Debug, Clone)]
pub struct CompilationConfig {
    pub target: String,
    pub optimize_flag: String,
    pub command: String,
    pub args: Vec<String>,
}

/// What came back from running the compiler.
#[derive(Debug)]
pub enum CompilerOutput {
    /// It exited with success.
    Success,
    /// It exited otherwise; the text tells how.
    Failure(String),
    /// It could not be run, for this reason.
    NotRun(String),
}

/// What the dictionary for the target of `file` holds.
pub open spec fn target_entries(work_folder: Seq<char>, file: FilePath) -> Seq<
    (Seq<char>, Seq<char>),
> {
    seq![
        ("work_folder"@, work_folder),
        ("filename_no_extension"@, file.file_stem@),
        ("filename"@, file.file_name@),
    ]
}

/// The dictionary for the target of `file`.
pub open spec fn target_dict(work_folder: Seq<char>, file: FilePath) -> Map<Seq<char>, Seq<char>> {
    Map::empty().insert("work_folder"@, work_folder).insert(
        "filename_no_extension"@,
        file.file_stem@,
    ).insert("filename"@, file.file_name@)
}

/// What the dictionary for the arguments of the compiler holds.
pub open spec fn args_entries(optimize_flag: Seq<char>, file: Seq<char>, target: Seq<char>) -> Seq<
    (Seq<char>, Seq<char>),
> {
    seq![("optimize_flag"@, optimize_flag), ("file"@, file), ("target"@, target)]
}

/// The dictionary for the arguments of the compiler.
pub open spec fn args_dict(optimize_flag: Seq<char>, file: Seq<char>, target: Seq<char>) -> Map<
    Seq<char>,
    Seq<char>,
> {
    Map::empty().insert("optimize_flag"@, optimize_flag).insert("file"@, file).insert(
        "target"@,
        target,
    )
}

impl From<cf_parsing::CompilationConfig> for CompilationConfig {
    /// The rule that an entry of the configuration file gives.
    fn from(value: cf_parsing::CompilationConfig) -> (r: CompilationConfig) {
        CompilationConfig {
            target: value.target,
            optimize_flag: value.optimize_flag,
            command: value.command,
            args: value.args,
        }
    }
}

impl vstd::std_specs::convert::FromSpecImpl<cf_parsing::CompilationConfig> for CompilationConfig {
    open spec fn obeys_from_spec() -> bool {
        true
    }

    open spec fn from_spec(value: cf_parsing::CompilationConfig) -> CompilationConfig {
        CompilationConfig {
            target: value.target,
            optimize_flag: value.optimize_flag,
            command: value.command,
            args: value.args,
        }
    }
}

impl CompilationConfig {
    /// Whether `r` is the target and the arguments for compiling `file`:
    /// the formatted target and the formatted arguments, or the error of
    /// the first pattern, the target first, that cannot be formatted.
    pub open spec fn reports_args(
        &self,
        r: CheckerResult<(String, Vec<String>)>,
        work_folder: Seq<char>,
        file: FilePath,
        stage: Stage,
    ) -> bool {
        match formatted(self.target@, target_dict(work_folder, file)) {
            Formatted::Text(target) => {
                let dict = args_dict(self.optimize_flag@, file.path@, target);
                let k = first_failure(views(self.args@), dict, 0);
                if k >= self.args@.len() {
                    r matches Ok(found) && found.0@ == target && views(found.1@)
                        == formatted_texts(views(self.args@), dict)
                } else {
                    r matches Err(e) && reports_in_stage(
                        Err::<String, Box<CheckerError>>(e),
                        views(self.args@)[k],
                        args_entries(self.optimize_flag@, file.path@, target),
                        stage,
                        formatted(views(self.args@)[k], dict),
                    )
                }
            },
            failed => r matches Err(e) && reports_in_stage(
                Err::<String, Box<CheckerError>>(e),
                self.target@,
                target_entries(work_folder, file),
                stage,
                failed,
            ),
        }
    }

    /// The file that compiling `file` makes, and the arguments of the
    /// compiler for it.
    pub fn get_args(&self, work_folder: &FilePath, file: &FilePath, stage: Stage) -> (r:
        CheckerResult<(String, Vec<String>)>)
        ensures
            self.reports_args(r, work_folder.path@, *file, stage),
    {
        proof {
            reveal_strlit("work_folder");
            reveal_strlit("filename_no_extension");
            reveal_strlit("filename");
            reveal_strlit("optimize_flag");
            reveal_strlit("file");
            reveal_strlit("target");
        }
        assert("work_folder"@.len() == 11 && "filename_no_extension"@.len() == 21 && "filename"@.len()
            == 8);
        assert("optimize_flag"@.len() == 13 && "file"@.len() == 4 && "target"@.len() == 6);
        let mut target_dict = Dictionary::new();
        target_dict.insert("work_folder", work_folder.path.as_str());
        assert(target_dict.spec_keys() =~= seq!["work_folder"@]);
        target_dict.insert("filename_no_extension", file.file_stem.as_str());
        assert(target_dict.spec_keys() =~= seq!["work_folder"@, "filename_no_extension"@]);
        target_dict.insert("filename", file.file_name.as_str());
        assert(target_dict.spec_keys() =~= seq![
            "work_folder"@,
            "filename_no_extension"@,
            "filename"@,
        ]);
        assert(target_dict.spec_entries() =~= target_entries(work_folder.path@, *file));
        let target = match dynamic_format(self.target.as_str(), &target_dict, stage) {
            Ok(target) => target,
            Err(e) => {
                return Err(e);
            },
        };
        let mut args_dict = Dictionary::new();
        args_dict.insert("optimize_flag", self.optimize_flag.as_str());
        assert(args_dict.spec_keys() =~= seq!["optimize_flag"@]);
        args_dict.insert("file", file.path.as_str());
        assert(args_dict.spec_keys() =~= seq!["optimize_flag"@, "file"@]);
        args_dict.insert("target", target.as_str());
        assert(args_dict.spec_keys() =~= seq!["optimize_flag"@, "file"@, "target"@]);
        assert(args_dict.spec_entries() =~= args_entries(
            self.optimize_flag@,
            file.path@,
            target@,
        ));
        match format_each(&self.args, &args_dict, stage) {
            Ok(args) => Ok((target, args)),
            Err(e) => Err(e),
        }
    }

    /// What the answer of the compiler means for compiling `file` to
    /// `target` with `args`: the target where the compiler exited with
    /// success, else the error that says what went wrong.
    pub fn compile_result(
        &self,
        file: &FilePath,
        stage: Stage,
        target: String,
        args: Vec<String>,
        output: CompilerOutput,
    ) -> (r: CheckerResult<String>)
        ensures
            match output {
                CompilerOutput::Success => r == Ok::<String, Box<CheckerError>>(target),
                CompilerOutput::Failure(status) => r matches Err(e) && (*e matches CheckerError::CommandError {
                    stage: st,
                    command,
                    args: a,
                    file: f,
                    msg,
                } && st == stage && command@ == self.command@ && a == args && f@ == file.path@
                    && msg@ == "Compiler exited with "@ + status@),
                CompilerOutput::NotRun(reason) => r matches Err(e) && (*e matches CheckerError::CommandError {
                    stage: st,
                    command,
                    args: a,
                    file: f,
                    msg,
                } && st == stage && command@ == self.command@ && a == args && f@ == file.path@
                    && msg@ == "IOError: "@ + reason@),
            },
    {
        let msg = match output {
            CompilerOutput::Success => {
                return Ok(target);
            },
            CompilerOutput::Failure(status) => {
                let mut msg = "Compiler exited with ".to_owned();
                msg.append(status.as_str());
                msg
            },
            CompilerOutput::NotRun(reason) => {
                let mut msg = "IOError: ".to_owned();
                msg.append(reason.as_str());
                msg
            },
        };
        Err(
            Box::new(
                CheckerError::CommandError {
                    stage,
                    command: self.command.clone(),
                    args,
                    file: file.path.clone(),
                    msg,
                },
            ),
        )
    }
}

} // verus!
