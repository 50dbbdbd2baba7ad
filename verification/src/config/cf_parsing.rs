//! What a configuration file holds.

use crate::path_lib::FilePath;
use vstd::prelude::*;

verus! {

/// A whole configuration file.
#[derive(Debug)]
pub struct Config {
    pub default: DefaultConfig,
    pub compilation: Vec<CompilationConfig>,
    pub launch: Vec<LaunchConfig>,
}

/// The table `default` of a configuration file.
#[derive(Debug)]
pub struct DefaultConfig {
    pub tested_program: FilePath,
    pub accepted_program: FilePath,
    pub data_generator: FilePath,
    pub test_cases: u32,
    pub test_threads: u32,
    pub ac_timeout: u64,
    pub program_timeout: u64,
    pub working_directory: FilePath,
    pub auto_remove_files: String,
    pub output_filters: Vec<String>,
    pub diff_tool: Vec<String>,
}

/// One entry of the table `compilation` of a configuration file.
#[derive(Debug)]
pub struct CompilationConfig {
    pub ext: Vec<String>,
    pub target: String,
    pub optimize_flag: String,
    pub command: String,
    pub args: Vec<String>,
}

/// One entry of the table `launch` of a configuration file.
#[derive(Debug)]
pub struct LaunchConfig {
    pub ext: Vec<String>,
    pub command: String,
    pub args: Vec<String>,
}

} // verus!
