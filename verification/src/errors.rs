use vstd::prelude::*;

verus! {

/// Errors surfaced by the traversal core.
///
/// `BadPattern` is a configuration error: an inclusion or exclusion glob did not
/// compile. `IgnoreFile` means the rule lines of one directory's ignore file
/// could not be compiled into a matcher. `ReadDir` means a directory's
/// listing was not available when the walker tried to expand it.
#[derive(Debug, PartialEq, Eq)]
pub enum TreeError {
    BadPattern { pattern: String },
    IgnoreFile { path: String },
    ReadDir { path: String },
}

} // verus!
