//! Paths as the library sees them: text, with the parts that rules read.

use vstd::prelude::*;

verus! {

/// A path, taken apart by whoever knows the conventions of the file system.
#[derive(Debug, Clone)]
pub struct FilePath {
    /// The whole path, as text.
    pub path: String,
    /// The last component; empty where the path has none.
    pub file_name: String,
    /// The last component without its extension; the whole path where the
    /// path has no last component.
    pub file_stem: String,
    /// The extension of the last component, without the dot.
    pub extension: Option<String>,
    /// Whether the path names the current directory.
    pub is_current_dir: bool,
}

} // verus!
