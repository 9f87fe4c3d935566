use vstd::prelude::*;

use crate::entry::{spec_is_hidden, Entry, EntryKind};
use crate::errors::TreeError;
use crate::globs::{globset_is_match, set_matches};
use crate::ignore_dir::{root_chain, source_ok, spec_include, GiModel, IgnoreDir, IgnoreSource};
use crate::options::{OptModel, TreeOptions};
use crate::text::last_component;

verus! {

/// The compatibility-mode directory-match state, carried from a directory to
/// its children. It is consulted only in compatibility mode with directory
/// matching on:
///
/// - 0: no ancestor directory matched the patterns; files must match them,
///   and a directory that matches opens its children up (state 1).
/// - 1: the immediate parent matched; files are shown without a pattern
///   check, and the children move on to state 2.
/// - 2: a more distant ancestor matched; files must match the patterns
///   again, and no further directory match is recorded.
#[derive(Clone, Copy, Debug, PartialEq, Eq, Structural)]
pub struct FilterState {
    pub matched_dir_depth: u8,
}

impl Default for FilterState {
    fn default() -> (r: FilterState)
        ensures
            r.matched_dir_depth == 0,
    {
        FilterState { matched_dir_depth: 0 }
    }
}

/// An entry that passed the filter, together with the state its children
/// inherit when it is a directory.
pub struct FilteredEntry {
    pub filter_state: FilterState,
    pub entry: Entry,
}

/// Whether a name passes the inclusion patterns (no patterns admit every
/// name).
pub open spec fn inc_matches(globs: Option<Seq<(Seq<char>, bool)>>, name: Seq<char>) -> bool {
    match globs {
        Some(g) => set_matches(g, name),
        None => true,
    }
}

/// Whether a name is rejected by the exclusion patterns (no patterns reject
/// none).
pub open spec fn exc_matches(globs: Option<Seq<(Seq<char>, bool)>>, name: Seq<char>) -> bool {
    match globs {
        Some(g) => set_matches(g, name),
        None => false,
    }
}

/// Whether the ignore chain lets a path through; with ignore files not
/// respected there is no chain and every path passes.
pub open spec fn chain_allows(
    chain: Option<Seq<GiModel>>,
    path: Seq<char>,
    is_dir: bool,
) -> bool {
    match chain {
        Some(c) => spec_include(c, path, is_dir),
        None => true,
    }
}

/// The filtering decision for one entry: `None` to reject it, or
/// `Some(child_state)` to keep it, where `child_state` is the
/// directory-match state handed to its children when it is a directory.
///
/// In order: hidden names lose unless hidden files are requested;
/// directories literally named `.git` always lose; a file loses when
/// directories-only is set, when it fails the inclusion patterns (unless the
/// immediate parent matched, state 1), or when the exclusion patterns match
/// it; a directory is never rejected by the inclusion patterns in
/// compatibility mode (but a match there may advance the state) and is
/// pruned by them otherwise, and always loses on an exclusion match; a
/// symlink is never pattern-checked; finally the ignore chain must let the
/// entry's path through.
pub open spec fn spec_filter(
    name: Seq<char>,
    kind: EntryKind,
    path: Seq<char>,
    state: int,
    opts: OptModel,
    chain: Option<Seq<GiModel>>,
) -> Option<int> {
    if !opts.show_hidden_files && spec_is_hidden(name) {
        None
    } else if kind == EntryKind::Directory && last_component(path) == ".git"@ {
        None
    } else {
        let inc_ok = inc_matches(opts.file_include_globs, name);
        let exc = exc_matches(opts.file_exclude_globs, name);
        match kind {
            EntryKind::File => {
                if opts.list_directories_only {
                    None
                } else if state != 1 && !inc_ok {
                    None
                } else if exc {
                    None
                } else if !chain_allows(chain, path, false) {
                    None
                } else {
                    Some(state)
                }
            },
            EntryKind::Directory => {
                let child = if opts.compat {
                    let matched = state == 0 && opts.match_dirs && inc_ok;
                    if state == 1 || matched {
                        state + 1
                    } else {
                        state
                    }
                } else {
                    state
                };
                if !opts.compat && !inc_ok {
                    None
                } else if exc {
                    None
                } else if !chain_allows(chain, path, true) {
                    None
                } else {
                    Some(child)
                }
            },
            EntryKind::Symlink => {
                if !chain_allows(chain, path, false) {
                    None
                } else {
                    Some(state)
                }
            },
        }
    }
}

/// Hidden-name suppression comes before everything else: with hidden files
/// off, a name starting with `.` is rejected whatever the patterns, the
/// state, the chain and the rest of the configuration say.
pub proof fn lemma_hidden_rejected_first(
    name: Seq<char>,
    kind: EntryKind,
    path: Seq<char>,
    state: int,
    opts: OptModel,
    chain: Option<Seq<GiModel>>,
)
    requires
        !opts.show_hidden_files,
        spec_is_hidden(name),
    ensures
        spec_filter(name, kind, path, state, opts, chain) is None,
{
}

/// A directory literally named `.git` is rejected whatever the configuration
/// says, also when no ignore chain is consulted at all.
pub proof fn lemma_dot_git_always_rejected(
    name: Seq<char>,
    path: Seq<char>,
    state: int,
    opts: OptModel,
    chain: Option<Seq<GiModel>>,
)
    requires
        last_component(path) == ".git"@,
    ensures
        spec_filter(name, EntryKind::Directory, path, state, opts, chain) is None,
{
    if !(!opts.show_hidden_files && spec_is_hidden(name)) {
        if chain is Some {
            assert(!chain_allows(chain, path, true));
        }
    }
}

/// With the immediate parent matched (state 1), a file's visibility does not
/// depend on the inclusion patterns at all: they are skipped, not merely
/// satisfied.
pub proof fn lemma_parent_match_opens_files(
    name: Seq<char>,
    path: Seq<char>,
    opts: OptModel,
    other_globs: Option<Seq<(Seq<char>, bool)>>,
    chain: Option<Seq<GiModel>>,
)
    ensures
        spec_filter(name, EntryKind::File, path, 1, opts, chain) == spec_filter(
            name,
            EntryKind::File,
            path,
            1,
            OptModel { file_include_globs: other_globs, ..opts },
            chain,
        ),
{
}

/// Applies the hidden-file, pattern and ignore-chain rules to one listing.
/// The state travels from a directory to its children; the compiled pattern
/// sets and the ignore chain are shared.
pub struct TreeFilter {
    pub state: FilterState,
    pub ignore_dir: Option<IgnoreDir>,
}

impl TreeFilter {
    /// The model of the ignore chain this filter consults, if any.
    pub open spec fn chain_model(&self) -> Option<Seq<GiModel>> {
        match self.ignore_dir {
            Some(d) => Some(d@),
            None => None,
        }
    }

    /// The directory-match state stays in its three-value range.
    pub open spec fn wf(&self) -> bool {
        self.state.matched_dir_depth <= 2
    }

    /// Builds the filter for a traversal root: a fresh state, and an ignore
    /// chain from the root's ancestors and the global rule-set when ignore
    /// files are respected. Fails exactly when a respected ancestor rule file
    /// does not compile.
    pub fn new(
        options: &TreeOptions,
        global: Option<ignore::gitignore::Gitignore>,
        ancestors: &Vec<IgnoreSource>,
    ) -> (r: Result<TreeFilter, TreeError>)
        ensures
            r is Ok <==> (options.respect_gitignore ==> (forall|i: int|
                0 <= i < ancestors.len() ==> source_ok(ancestors@[i]))),
            r matches Ok(f) ==> {
                &&& f.state.matched_dir_depth == 0
                &&& f.wf()
                &&& f.chain_model() == (if options.respect_gitignore {
                    Some(root_chain(global, ancestors@))
                } else {
                    None::<Seq<GiModel>>
                })
            },
    {
        if options.respect_gitignore {
            match IgnoreDir::new(global, ancestors) {
                Ok(d) => Ok(
                    TreeFilter {
                        state: FilterState { matched_dir_depth: 0 },
                        ignore_dir: Some(d),
                    },
                ),
                Err(e) => Err(e),
            }
        } else {
            Ok(TreeFilter { state: FilterState { matched_dir_depth: 0 }, ignore_dir: None })
        }
    }

    /// Descends into a child directory: the handed-down state replaces the
    /// current one and the chain gains the child's own rule-set. Fails
    /// exactly when the child's rule lines do not compile (and only with a
    /// chain present).
    pub fn enter_dir(
        &self,
        dir: &Entry,
        _options: &TreeOptions,
        state: FilterState,
        ignore_lines: &Option<Vec<String>>,
    ) -> (r: Result<TreeFilter, TreeError>)
        ensures
            r is Ok <==> (match (self.chain_model(), ignore_lines) {
                (Some(_), Some(ls)) => crate::gitignore::lines_ok(ls.deep_view()),
                _ => true,
            }),
            r matches Err(e) ==> (e matches TreeError::IgnoreFile { path } && path@
                == dir.path@),
            r matches Ok(f) ==> {
                &&& f.state == state
                &&& state.matched_dir_depth <= 2 ==> f.wf()
                &&& f.chain_model() == (match self.chain_model() {
                    Some(c) => Some(
                        (match ignore_lines {
                            Some(ls) => seq![
                                GiModel {
                                    root: crate::text::strip_dot_slash(dir.path@),
                                    rules: ls.deep_view(),
                                },
                            ],
                            None => Seq::<GiModel>::empty(),
                        }) + c,
                    ),
                    None => None::<Seq<GiModel>>,
                })
            },
    {
        match &self.ignore_dir {
            Some(d) => {
                match d.enter_dir(dir.path.as_str(), ignore_lines) {
                    Ok(child) => Ok(TreeFilter { state, ignore_dir: Some(child) }),
                    Err(e) => Err(e),
                }
            },
            None => Ok(TreeFilter { state, ignore_dir: None }),
        }
    }

    /// Whether a name passes the inclusion patterns.
    fn file_name_included_by_pattern(&self, file_name: &String, options: &TreeOptions) -> (r: bool)
        ensures
            r == inc_matches(options@.file_include_globs, file_name@),
    {
        match &options.file_include_globset {
            Some(gs) => globset_is_match(gs, file_name.as_str()),
            None => true,
        }
    }

    /// Whether a name is rejected by the exclusion patterns.
    fn file_name_excluded_by_pattern(&self, file_name: &String, options: &TreeOptions) -> (r: bool)
        ensures
            r == exc_matches(options@.file_exclude_globs, file_name@),
    {
        match &options.file_exclude_globset {
            Some(gs) => globset_is_match(gs, file_name.as_str()),
            None => false,
        }
    }

    /// Decides one entry, as `spec_filter` says: `None` rejects it, and a
    /// kept entry carries the state its children inherit.
    pub fn filter(&self, entry: Entry, options: &TreeOptions) -> (r: Option<FilteredEntry>)
        requires
            self.wf(),
        ensures
            (r is Some) == (spec_filter(
                entry.file_name@,
                entry.ty,
                entry.path@,
                self.state.matched_dir_depth as int,
                options@,
                self.chain_model(),
            ) is Some),
            r matches Some(fe) ==> {
                &&& fe.entry == entry
                &&& fe.filter_state.matched_dir_depth <= 2
                &&& spec_filter(
                    entry.file_name@,
                    entry.ty,
                    entry.path@,
                    self.state.matched_dir_depth as int,
                    options@,
                    self.chain_model(),
                ) == Some(fe.filter_state.matched_dir_depth as int)
            },
    {
        if !options.show_hidden_files && entry.is_hidden() {
            return None;
        }
        if matches!(entry.ty, EntryKind::Directory) {
            let name = crate::text::last_component_of(entry.path.as_str());
            if crate::text::str_eq(name, ".git") {
                return None;
            }
        }
        let mut filter_state = self.state;

        match entry.ty {
            EntryKind::File => {
                if options.list_directories_only {
                    return None;
                }
                if !(self.state.matched_dir_depth == 1) && !self.file_name_included_by_pattern(
                    &entry.file_name,
                    options,
                ) {
                    return None;
                }
                if self.file_name_excluded_by_pattern(&entry.file_name, options) {
                    return None;
                }
            },
            EntryKind::Directory => {
                if options.compat {
                    let mut matched_dir = false;
                    if self.state.matched_dir_depth == 0 && options.match_dirs
                        && self.file_name_included_by_pattern(&entry.file_name, options) {
                        matched_dir = true;
                    }
                    if filter_state.matched_dir_depth == 1 || matched_dir {
                        filter_state.matched_dir_depth = filter_state.matched_dir_depth + 1;
                    }
                } else if !self.file_name_included_by_pattern(&entry.file_name, options) {
                    return None;
                }
                if self.file_name_excluded_by_pattern(&entry.file_name, options) {
                    return None;
                }
            },
            EntryKind::Symlink => {},
        }

        match &self.ignore_dir {
            Some(d) => {
                let is_dir = matches!(entry.ty, EntryKind::Directory);
                if !d.included(entry.path.as_str(), is_dir) {
                    return None;
                }
            },
            None => {},
        }

        Some(FilteredEntry { filter_state, entry })
    }
}

} // verus!
