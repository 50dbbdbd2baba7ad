//! The errors that end a run or a stage, what they say and how to mend them.

use crate::launch::filter::OutputFilter;
use crate::text::{decimal, join, push_decimal, push_quoted_args, quoted_args, views};
use vstd::prelude::*;
use vstd::string::*;

verus! {

/// The stage in which an error came up.
#[derive(Debug, Clone, Copy, PartialEq, Eq, Structural)]
pub enum Stage {
    CompileDG,
    CompileAC,
    CompileTP,
    LaunchDG,
    LaunchAC,
    LaunchTP,
}

impl Stage {
    /// What the stage is called in messages.
    pub open spec fn spec_name(self) -> Seq<char> {
        match self {
            Stage::CompileDG => "compiling data generator"@,
            Stage::CompileAC => "compiling accepted program"@,
            Stage::CompileTP => "compiling tested program"@,
            Stage::LaunchDG => "launching data generator"@,
            Stage::LaunchAC => "launching accepted program"@,
            Stage::LaunchTP => "launching tested program"@,
        }
    }

    /// What the stage is called in messages.
    pub fn to_str(&self) -> (r: &'static str)
        ensures
            r@ == self.spec_name(),
    {
        match self {
            Stage::CompileDG => "compiling data generator",
            Stage::CompileAC => "compiling accepted program",
            Stage::CompileTP => "compiling tested program",
            Stage::LaunchDG => "launching data generator",
            Stage::LaunchAC => "launching accepted program",
            Stage::LaunchTP => "launching tested program",
        }
    }
}

/// Everything that can go wrong. Errors of the system and of the
/// configuration parser are held by their messages, paths as text.
#[derive(Debug)]
pub enum CheckerError {
    CfgFileReadingError { err: String, file: String },
    CfgFileParsingError { err: String, file: String },
    CfgIntegrateError { msg: String, file_source: String },
    CreateWorkDirError { err: String, dir: String },
    ArgFormattingTokenError { stage: Stage, pattern: String, desc: String, pos: usize },
    ArgFormattingKeyError {
        stage: Stage,
        pattern: String,
        key: String,
        entries: Vec<(String, String)>,
        pos: usize,
    },
    CommandError { stage: Stage, command: String, args: Vec<String>, file: String, msg: String },
    FilterError { filter: OutputFilter, err: String, file: String },
    DiffToolError { command: String, args: Vec<String>, err: String },
}

pub type BoxedCheckerError = Box<CheckerError>;

pub type CheckerResult<T> = Result<T, BoxedCheckerError>;

/// The lines that list `entries` in a help text, one `- key: value` each.
pub open spec fn entry_lines(entries: Seq<(String, String)>) -> Seq<Seq<char>> {
    Seq::new(entries.len(), |i: int| "- "@ + entries[i].0@ + ": "@ + entries[i].1@)
}

impl CheckerError {
    /// The advice that goes with the error.
    pub open spec fn spec_help(self) -> Seq<char> {
        match self {
            CheckerError::CfgFileReadingError { .. } => "Check file permission."@,
            CheckerError::CfgFileParsingError { .. } => "Check if the file is TOML grammatical and has all the fields and correspond types."@,
            CheckerError::CfgIntegrateError { .. } => "Check if the value is legal (in options)."@,
            CheckerError::CreateWorkDirError { .. } => "Check directory permission. Avoid using nested path."@,
            CheckerError::ArgFormattingTokenError { .. } => "Correct the grammar of formatting"@,
            CheckerError::ArgFormattingKeyError { entries, .. } => "Possible key-value pairs are:\n"@
                + join(entry_lines(entries@), "\n"@),
            CheckerError::CommandError { .. } => "Check your program or config."@,
            CheckerError::FilterError { .. } => "This error shouldn't occur, it's a TOC-TOU error."@,
            CheckerError::DiffToolError { .. } => "Please check if the different tool program exists."@,
        }
    }

    /// What the error says.
    pub open spec fn spec_message(self) -> Seq<char> {
        match self {
            CheckerError::CfgFileReadingError { err, file } => "Read config file ("@ + file@
                + ") failed:\n"@ + err@,
            CheckerError::CfgFileParsingError { err, file } => "Parse config file ("@ + file@
                + ") failed:\n"@ + err@,
            CheckerError::CfgIntegrateError { msg, file_source } => "Error when integrating config (file source: "@
                + file_source@ + "): "@ + msg@,
            CheckerError::CreateWorkDirError { err, dir } => "Error when creating working directory ("@
                + dir@ + "): "@ + err@,
            CheckerError::ArgFormattingTokenError { stage, pattern, desc, pos } => "Error when parsing arguments during "@
                + stage.spec_name() + ": Token Error ("@ + desc@ + ") when parsing pattern \""@
                + pattern@ + "\" at pos "@ + decimal(pos as nat) + "."@,
            CheckerError::ArgFormattingKeyError { stage, pattern, key, pos, .. } => "Error when parsing arguments during "@
                + stage.spec_name() + ": Key Not Found (key: \""@ + key@
                + "\") when parsing pattern \""@ + pattern@ + "\" at pos "@ + decimal(pos as nat)
                + "."@,
            CheckerError::CommandError { stage, command, args, file, msg } => "Error during "@
                + stage.spec_name() + " (file: "@ + file@ + "): "@ + msg@ + ".\nCommand: \""@
                + command@ + "\" "@ + quoted_args(views(args@)),
            CheckerError::FilterError { filter, err, file } => "Error during filtering file "@
                + file@ + " (filter: "@ + filter.spec_name() + "): "@ + err@,
            CheckerError::DiffToolError { command, args, err } => "Error during comparing files: "@
                + err@ + "\nCommand: \""@ + command@ + "\" "@ + quoted_args(views(args@)) + "\n"@,
        }
    }

    /// The advice that goes with the error.
    pub fn get_help(&self) -> (r: String)
        ensures
            r@ == self.spec_help(),
    {
        match self {
            CheckerError::CfgFileReadingError { .. } => "Check file permission.".to_owned(),
            CheckerError::CfgFileParsingError { .. } => "Check if the file is TOML grammatical and has all the fields and correspond types.".to_owned(),
            CheckerError::CfgIntegrateError { .. } => "Check if the value is legal (in options).".to_owned(),
            CheckerError::CreateWorkDirError { .. } => "Check directory permission. Avoid using nested path.".to_owned(),
            CheckerError::ArgFormattingTokenError { .. } => "Correct the grammar of formatting".to_owned(),
            CheckerError::ArgFormattingKeyError { entries, .. } => {
                let mut s = "Possible key-value pairs are:\n".to_owned();
                let ghost head = s@;
                let ghost all = entry_lines(entries@);
                let mut i: usize = 0;
                assert(all.take(0) =~= Seq::<Seq<char>>::empty());
                assert(head + Seq::<char>::empty() == head);
                while i < entries.len()
                    invariant
                        i <= entries.len(),
                        all == entry_lines(entries@),
                        s@ == head + join(all.take(i as int), "\n"@),
                    decreases entries.len() - i,
                {
                    proof {
                        let next = all.take(i + 1);
                        let line = "- "@ + entries[i as int].0@ + ": "@ + entries[i as int].1@;
                        assert(next.drop_last() =~= all.take(i as int));
                        assert(next.last() == line);
                        let before = join(all.take(i as int), "\n"@);
                        if i == 0 {
                            assert(before == Seq::<char>::empty());
                            assert(head + before + "- "@ + entries[i as int].0@ + ": "@
                                + entries[i as int].1@ =~= head + join(next, "\n"@));
                        } else {
                            assert(head + before + "\n"@ + "- "@ + entries[i as int].0@ + ": "@
                                + entries[i as int].1@ =~= head + join(next, "\n"@));
                        }
                    }
                    if i > 0 {
                        s.append("\n");
                    }
                    s.append("- ");
                    s.append(entries[i].0.as_str());
                    s.append(": ");
                    s.append(entries[i].1.as_str());
                    i += 1;
                }
                assert(all.take(entries.len() as int) =~= all);
                s
            },
            CheckerError::CommandError { .. } => "Check your program or config.".to_owned(),
            CheckerError::FilterError { .. } => "This error shouldn't occur, it's a TOC-TOU error.".to_owned(),
            CheckerError::DiffToolError { .. } => "Please check if the different tool program exists.".to_owned(),
        }
    }

    /// What the error says.
    pub fn to_message(&self) -> (r: String)
        ensures
            r@ == self.spec_message(),
    {
        match self {
            CheckerError::CfgFileReadingError { err, file } => {
                let mut s = "Read config file (".to_owned();
                s.append(file.as_str());
                s.append(") failed:\n");
                s.append(err.as_str());
                s
            },
            CheckerError::CfgFileParsingError { err, file } => {
                let mut s = "Parse config file (".to_owned();
                s.append(file.as_str());
                s.append(") failed:\n");
                s.append(err.as_str());
                s
            },
            CheckerError::CfgIntegrateError { msg, file_source } => {
                let mut s = "Error when integrating config (file source: ".to_owned();
                s.append(file_source.as_str());
                s.append("): ");
                s.append(msg.as_str());
                s
            },
            CheckerError::CreateWorkDirError { err, dir } => {
                let mut s = "Error when creating working directory (".to_owned();
                s.append(dir.as_str());
                s.append("): ");
                s.append(err.as_str());
                s
            },
            CheckerError::ArgFormattingTokenError { stage, pattern, desc, pos } => {
                let mut s = "Error when parsing arguments during ".to_owned();
                s.append(stage.to_str());
                s.append(": Token Error (");
                s.append(desc.as_str());
                s.append(") when parsing pattern \"");
                s.append(pattern.as_str());
                s.append("\" at pos ");
                push_decimal(&mut s, *pos as u128);
                s.append(".");
                s
            },
            CheckerError::ArgFormattingKeyError { stage, pattern, key, pos, .. } => {
                let mut s = "Error when parsing arguments during ".to_owned();
                s.append(stage.to_str());
                s.append(": Key Not Found (key: \"");
                s.append(key.as_str());
                s.append("\") when parsing pattern \"");
                s.append(pattern.as_str());
                s.append("\" at pos ");
                push_decimal(&mut s, *pos as u128);
                s.append(".");
                s
            },
            CheckerError::CommandError { stage, command, args, file, msg } => {
                let mut s = "Error during ".to_owned();
                s.append(stage.to_str());
                s.append(" (file: ");
                s.append(file.as_str());
                s.append("): ");
                s.append(msg.as_str());
                s.append(".\nCommand: \"");
                s.append(command.as_str());
                s.append("\" ");
                push_quoted_args(&mut s, args);
                s
            },
            CheckerError::FilterError { filter, err, file } => {
                let mut s = "Error during filtering file ".to_owned();
                s.append(file.as_str());
                s.append(" (filter: ");
                s.append(filter.to_str());
                s.append("): ");
                s.append(err.as_str());
                s
            },
            CheckerError::DiffToolError { command, args, err } => {
                let mut s = "Error during comparing files: ".to_owned();
                s.append(err.as_str());
                s.append("\nCommand: \"");
                s.append(command.as_str());
                s.append("\" ");
                push_quoted_args(&mut s, args);
                s.append("\n");
                s
            },
        }
    }
}

} // verus!
