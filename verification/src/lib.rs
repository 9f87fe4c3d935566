//! Verified core of a `tree`-style directory lister: layered gitignore-chain
//! resolution, inclusion/exclusion glob filtering, hidden-file handling, and the
//! compatibility-mode directory-match state machine, together with the
//! depth-first walker that sorts entries and keeps directory/file counts.

pub mod args;
pub mod entry;
pub mod errors;
pub mod filter;
pub mod gitignore;
pub mod globs;
pub mod ignore_dir;
pub mod options;
pub mod sorter;
pub mod stats;
pub mod text;
pub mod tree;
