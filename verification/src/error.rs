//! What can end a packaging run early.

use vstd::prelude::*;

verus! {

/// The step of a run that failed.
#[derive(Debug, Clone, Copy, PartialEq, Eq, Structural)]
pub enum Failure {
    /// An ignore pattern is no valid glob pattern.
    IgnorePattern,
    /// The output file could not be created.
    CreateOutput,
    /// An include entry is no valid glob pattern.
    FilePattern,
    /// A match of an include entry could not be read while expanding it.
    GlobEntry,
    /// A directory could not be listed.
    ReadDirectory,
    /// An entry of a directory could not be read while listing it.
    ReadEntry,
    /// A file could not be read as text.
    ReadFile,
    /// The output file refused a write.
    WriteOutput,
}

/// The part of the configuration a run was working through when it failed.
#[derive(Debug, Clone, Copy, PartialEq, Eq, Structural)]
pub enum Scope {
    /// Before any file was looked at: patterns and output file.
    Setup,
    /// A directory that an include entry matched.
    ExtraDirectory,
    /// A file that an include entry matched.
    ExtraFile,
    /// The input directory.
    InputDirectory,
}

/// A failed run: what failed, on which path or pattern, and within what.
#[derive(Debug, Clone)]
pub struct PackError {
    /// The step that failed.
    pub failure: Failure,
    /// The path or pattern the step was applied to.
    pub subject: String,
    /// The part of the configuration being worked through.
    pub scope: Scope,
    /// The include match or input directory being worked through; empty during
    /// setup.
    pub root: String,
}

/// A failed run, with texts in place of strings.
pub struct PackErrorView {
    pub failure: Failure,
    pub subject: Seq<char>,
    pub scope: Scope,
    pub root: Seq<char>,
}

impl View for PackError {
    type V = PackErrorView;

    open spec fn view(&self) -> PackErrorView {
        PackErrorView {
            failure: self.failure,
            subject: self.subject@,
            scope: self.scope,
            root: self.root@,
        }
    }
}

} // verus!
