//! What the command line holds.

use crate::path_lib::FilePath;
use vstd::prelude::*;

verus! {

/// The settings given on the command line; each may be left out.
#[derive(Debug)]
pub struct ClaConfig {
    pub tested_program: Option<FilePath>,
    pub accepted_program: Option<FilePath>,
    pub data_generator: Option<FilePath>,
    pub test_cases: Option<u32>,
    pub test_threads: Option<u32>,
    pub ac_timeout: Option<u64>,
    pub program_timeout: Option<u64>,
    pub working_directory: Option<FilePath>,
    pub auto_remove_files: Option<String>,
    pub output_filters: Option<Vec<String>>,
    pub diff_tool: Option<Vec<String>>,
}

} // verus!
