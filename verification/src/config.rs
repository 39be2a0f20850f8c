//! What a packaging run is asked to do.

use vstd::prelude::*;

verus! {

/// The configuration of one packaging run.
#[derive(Debug, Clone)]
pub struct PackagerConfig {
    /// The directory whose tree is packed after the include entries.
    pub input_dir: String,
    /// The file the document is written to.
    pub output_file: String,
    /// Include entries: paths of files or directories, or glob patterns.
    pub extra_files: Vec<String>,
    /// Glob patterns of paths that a walk through a directory leaves out.
    pub ignore_patterns: Vec<String>,
}

impl Default for PackagerConfig {
    /// Packs `src` into `src_code.txt`, with no include entry and no ignore
    /// pattern.
    fn default() -> (config: Self)
        ensures
            config.input_dir@ == "src"@,
            config.output_file@ == "src_code.txt"@,
            config.extra_files@.len() == 0,
            config.ignore_patterns@.len() == 0,
    {
        Self {
            input_dir: "src".to_owned(),
            output_file: "src_code.txt".to_owned(),
            extra_files: Vec::new(),
            ignore_patterns: Vec::new(),
        }
    }
}

} // verus!
