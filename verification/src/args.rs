use vstd::prelude::*;

verus! {

/// The resolved command-line arguments, as plain data. Parsing them from the
/// actual command line happens outside the library; this struct is what the
/// configuration is derived from.
#[derive(Debug)]
pub struct TreeArgs {
    /// All files are listed (`-a`).
    pub show_hidden_files: bool,
    /// List directories only (`-d`).
    pub list_directories_only: bool,
    /// Print the full path prefix for each file (`-f`).
    pub print_full_path_prefix: bool,
    /// Descend only this many directory levels deep (`-L`).
    pub max_level: Option<usize>,
    /// List only files matching one of these patterns (`-P`).
    pub file_include_patterns: Vec<String>,
    /// Do not list files matching one of these patterns (`-I`).
    pub file_exclude_patterns: Vec<String>,
    /// Ignore case when pattern matching (`--ignore-case`).
    pub ignore_case: bool,
    /// Test directory names, not only file names, against the patterns
    /// (`--matchdirs`).
    pub match_dirs: bool,
    /// Compatibility mode: reproduce the reference tool's quirks (`--compat`).
    pub compat: bool,
    /// Ignore-rule files are not respected (`--no-gitignore`; outside
    /// compatibility mode only).
    pub no_gitignore: bool,
    /// Ignore-rule files are respected (`--gitignore`; compatibility mode
    /// only, where the default is off).
    pub gitignore: bool,
    /// Show icons (`--icons`; compatibility mode only, where the default is
    /// off).
    pub icons: bool,
    /// Hide icons (`--no-icons`; outside compatibility mode only).
    pub no_icons: bool,
    /// The directories to list.
    pub roots: Vec<String>,
}

} // verus!
