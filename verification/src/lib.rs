//! Engine of an automatic judge for competitive-programming submissions:
//! argument templates, extension rules, the per-case pipeline and the
//! bookkeeping around it.

pub mod checker_error;
pub mod clean_files;
pub mod compilation;
pub mod config;
pub mod dyn_formatting;
pub mod launch;
pub mod logging;
pub mod path_lib;
pub mod scheduler;
pub mod text;
pub mod util;
