use vstd::multiset::Multiset;
use vstd::prelude::*;

use crate::entry::{Entry, EntryKind};
use crate::errors::TreeError;
use crate::filter::{spec_filter, FilterState, FilteredEntry, TreeFilter};
use crate::gitignore::lines_ok;
use crate::ignore_dir::{root_chain, source_ok, GiModel, IgnoreSource};
use crate::options::{OptModel, TreeOptions};
use crate::stats::{render_report, spec_report};
use crate::text::{lemma_lex_total, lemma_lex_trans, lex_le, lex_lt, strip_dot_slash};

verus! {

// ---------------------------------------------------------------------------
// The snapshot a walk runs over
// ---------------------------------------------------------------------------

/// One node of an in-memory snapshot of a directory tree. The walker reads
/// the snapshot; listing the filesystem into it happens outside the library.
pub struct FsNode {
    pub name: String,
    pub kind: EntryKind,
    /// A directory's own ignore-rule lines; `None` when it has no rule file.
    pub ignore_lines: Option<Vec<String>>,
    /// A directory's entries; `None` when its listing was not available.
    pub entries: Option<Vec<FsNode>>,
}

/// Only directories carry rule lines or entries.
pub open spec fn wf_node(n: FsNode) -> bool
    decreases n, 3int,
{
    &&& (n.kind != EntryKind::Directory ==> n.ignore_lines is None && n.entries is None)
    &&& wf_opt_entries(n.entries)
}

pub open spec fn wf_opt_entries(o: Option<Vec<FsNode>>) -> bool
    decreases o, 2int,
{
    match o {
        Some(v) => wf_vec(v),
        None => true,
    }
}

pub open spec fn wf_vec(v: Vec<FsNode>) -> bool
    decreases v, 1int,
{
    wf_seq(v@)
}

pub open spec fn wf_seq(s: Seq<FsNode>) -> bool
    decreases s, 0int,
{
    forall|i: int| 0 <= i < s.len() ==> wf_node(#[trigger] s[i])
}

/// The number of nodes of a subtree, the node itself included.
pub open spec fn count_node(n: FsNode) -> nat
    decreases n, 3int,
{
    1 + count_opt(n.entries)
}

pub open spec fn count_opt(o: Option<Vec<FsNode>>) -> nat
    decreases o, 2int,
{
    match o {
        Some(v) => count_vec(v),
        None => 0,
    }
}

pub open spec fn count_vec(v: Vec<FsNode>) -> nat
    decreases v, 1int,
{
    count_nodes(v@)
}

pub open spec fn count_nodes(s: Seq<FsNode>) -> nat
    decreases s, 4int,
{
    if s.len() == 0 {
        0
    } else {
        count_node(s[0]) + count_nodes(s.drop_first())
    }
}

/// Each element counts no more than the whole list.
proof fn lemma_count_elem(s: Seq<FsNode>, i: int)
    requires
        0 <= i < s.len(),
    ensures
        count_node(s[i]) <= count_nodes(s),
    decreases s.len(),
{
    if i > 0 {
        lemma_count_elem(s.drop_first(), i - 1);
    }
}

// ---------------------------------------------------------------------------
// What the walk produces
// ---------------------------------------------------------------------------

/// The model of one reported entry.
pub struct EventModel {
    pub name: Seq<char>,
    pub path: Seq<char>,
    pub kind: EntryKind,
    pub depth: int,
    pub is_last: bool,
    pub prefix: Seq<char>,
    pub display: Seq<char>,
}

/// One reported entry: the walker emits these in depth-first order. `display`
/// is the name to render (path-prefixed under the full-path option), `prefix`
/// the indentation for the levels above, and `is_last` whether the entry is
/// the last of its directory.
#[derive(Debug, PartialEq, Eq)]
pub struct TreeEvent {
    pub name: String,
    pub path: String,
    pub kind: EntryKind,
    pub depth: usize,
    pub is_last: bool,
    pub prefix: String,
    pub display: String,
}

impl View for TreeEvent {
    type V = EventModel;

    open spec fn view(&self) -> EventModel {
        EventModel {
            name: self.name@,
            path: self.path@,
            kind: self.kind,
            depth: self.depth as int,
            is_last: self.is_last,
            prefix: self.prefix@,
            display: self.display@,
        }
    }
}

pub open spec fn events_of(s: Seq<TreeEvent>) -> Seq<EventModel> {
    s.map_values(|e: TreeEvent| e@)
}

/// How a walk stops early.
pub enum WalkFailure {
    /// A directory's listing was not available.
    ReadDir { path: Seq<char> },
    /// A directory's rule lines did not compile on entering it.
    IgnoreFile { path: Seq<char> },
}

/// Whether a returned error reports the given failure.
pub open spec fn matches_failure(e: TreeError, f: WalkFailure) -> bool {
    match f {
        WalkFailure::ReadDir { path: p } => e matches TreeError::ReadDir { path } && path@ == p,
        WalkFailure::IgnoreFile { path: p } => e matches TreeError::IgnoreFile { path }
            && path@ == p,
    }
}

/// The outcome of (part of) a walk: the reported entries in order, the
/// directory and file counts, and whether and where it stopped early.
pub struct WalkOut {
    pub events: Seq<EventModel>,
    pub dirs: nat,
    pub files: nat,
    pub failed: Option<WalkFailure>,
}

pub open spec fn walk_empty() -> WalkOut {
    WalkOut { events: Seq::<EventModel>::empty(), dirs: 0, files: 0, failed: None }
}

/// Sequencing of outcomes: a failure cuts everything after it off.
pub open spec fn combine(a: WalkOut, b: WalkOut) -> WalkOut {
    if a.failed is Some {
        a
    } else {
        WalkOut {
            events: a.events + b.events,
            dirs: a.dirs + b.dirs,
            files: a.files + b.files,
            failed: b.failed,
        }
    }
}

/// Addition capped at the counter range.
pub open spec fn sat_add(a: int, b: int) -> int {
    if a + b <= usize::MAX {
        a + b
    } else {
        usize::MAX as int
    }
}

// ---------------------------------------------------------------------------
// The traversal state and the walk's definition
// ---------------------------------------------------------------------------

/// The traversal state at one directory: the directory-match state, the
/// ignore chain, the depth, the rendered indentation, the display path
/// prefix, and the directory's own path.
pub struct WalkCtx {
    pub state: int,
    pub chain: Option<Seq<GiModel>>,
    pub depth: int,
    pub prefix: Seq<char>,
    pub path_prefix: Option<Seq<char>>,
    pub dir_path: Seq<char>,
}

/// A child's path under a directory.
pub open spec fn child_path(dir: Seq<char>, name: Seq<char>) -> Seq<char> {
    dir + "/"@ + name
}

/// The filtering decision for one child of the current directory.
pub open spec fn keep_child(c: FsNode, ctx: WalkCtx, opts: OptModel) -> Option<int> {
    spec_filter(c.name@, c.kind, child_path(ctx.dir_path, c.name@), ctx.state, opts, ctx.chain)
}

/// The kept children among the first `end`, in listing order, each with the
/// state its own children inherit.
pub open spec fn surv_upto(children: Seq<FsNode>, end: int, ctx: WalkCtx, opts: OptModel) -> Seq<
    (usize, u8),
>
    decreases end,
{
    if end <= 0 {
        Seq::<(usize, u8)>::empty()
    } else {
        surv_upto(children, end - 1, ctx, opts) + (match keep_child(children[end - 1], ctx, opts) {
            Some(cs) => seq![(((end - 1) as usize), (cs as u8))],
            None => Seq::<(usize, u8)>::empty(),
        })
    }
}

/// Strict name order between two kept children.
pub open spec fn surv_lt(children: Seq<FsNode>, a: (usize, u8), b: (usize, u8)) -> bool {
    lex_lt(children[a.0 as int].name@, children[b.0 as int].name@)
}

/// Insertion into a sorted survivor list: `x` goes in front of the first
/// element strictly greater, so equal names keep their listing order.
pub open spec fn spec_insert(children: Seq<FsNode>, x: (usize, u8), s: Seq<(usize, u8)>) -> Seq<
    (usize, u8),
>
    decreases s.len(),
{
    if s.len() == 0 {
        seq![x]
    } else if surv_lt(children, x, s[0]) {
        seq![x] + s
    } else {
        seq![s[0]] + spec_insert(children, x, s.drop_first())
    }
}

/// Insertion sort of the survivors by name.
pub open spec fn spec_sort(children: Seq<FsNode>, s: Seq<(usize, u8)>) -> Seq<(usize, u8)>
    decreases s.len(),
{
    if s.len() == 0 {
        Seq::<(usize, u8)>::empty()
    } else {
        spec_insert(children, s.last(), spec_sort(children, s.drop_last()))
    }
}

/// Whether the walk descends below the current depth.
pub open spec fn spec_should_enter(depth: int, max_level: Option<int>) -> bool {
    match max_level {
        Some(ml) => depth + 1 < ml,
        None => true,
    }
}

/// Whether entering a child directory succeeds: with a chain present its rule
/// lines must compile.
pub open spec fn enter_ok(chain: Option<Seq<GiModel>>, ignore_lines: Option<Vec<String>>) -> bool {
    match (chain, ignore_lines) {
        (Some(_), Some(ls)) => lines_ok(ls.deep_view()),
        _ => true,
    }
}

/// The chain a child directory's entries are resolved against: its own
/// rule-set, then everything of the parent.
pub open spec fn child_chain(
    chain: Option<Seq<GiModel>>,
    path: Seq<char>,
    ignore_lines: Option<Vec<String>>,
) -> Option<Seq<GiModel>> {
    match chain {
        None => None,
        Some(c) => Some(
            (match ignore_lines {
                Some(ls) => seq![GiModel { root: strip_dot_slash(path), rules: ls.deep_view() }],
                None => Seq::<GiModel>::empty(),
            }) + c,
        ),
    }
}

/// The traversal state handed to a child directory.
pub open spec fn child_ctx(
    ctx: WalkCtx,
    cs: int,
    name: Seq<char>,
    ignore_lines: Option<Vec<String>>,
    is_last: bool,
) -> WalkCtx {
    let path = child_path(ctx.dir_path, name);
    WalkCtx {
        state: cs,
        chain: child_chain(ctx.chain, path, ignore_lines),
        depth: ctx.depth + 1,
        prefix: ctx.prefix + (if is_last {
            "    "@
        } else {
            "│   "@
        }),
        path_prefix: match ctx.path_prefix {
            Some(pp) => Some(child_path(pp, name)),
            None => None,
        },
        dir_path: path,
    }
}

/// The outcome of walking one directory: without a listing the walk stops
/// there; otherwise the kept children are sorted by name, the directory
/// itself is counted once at depth 0 when anything survived, and the
/// survivors are processed in order.
pub open spec fn spec_walk(node: FsNode, ctx: WalkCtx, opts: OptModel) -> WalkOut
    decreases node, 0int, 0int,
{
    match node.entries {
        None => WalkOut {
            events: Seq::<EventModel>::empty(),
            dirs: 0,
            files: 0,
            failed: Some(WalkFailure::ReadDir { path: ctx.dir_path }),
        },
        Some(es) => {
            let survivors = spec_sort(es@, surv_upto(es@, es@.len() as int, ctx, opts));
            let root_inc: nat = if ctx.depth == 0 && survivors.len() > 0 {
                1
            } else {
                0
            };
            let base = WalkOut {
                events: Seq::<EventModel>::empty(),
                dirs: root_inc,
                files: 0,
                failed: None,
            };
            combine(base, spec_walk_list(es@, survivors, ctx, opts))
        },
    }
}

/// The outcome of processing the remaining survivors of one directory, in
/// order.
pub open spec fn spec_walk_list(
    children: Seq<FsNode>,
    survivors: Seq<(usize, u8)>,
    ctx: WalkCtx,
    opts: OptModel,
) -> WalkOut
    decreases children, survivors.len(), 1int,
{
    if survivors.len() == 0 {
        walk_empty()
    } else {
        combine(
            spec_walk_one(children, survivors[0], survivors.len() == 1, ctx, opts),
            spec_walk_list(children, survivors.drop_first(), ctx, opts),
        )
    }
}

/// The outcome of reporting one survivor: its event, one count, and for an
/// expanded directory the walk of its subtree; entering a directory whose
/// rule lines do not compile stops the walk there. A survivor index outside
/// the listing walks an empty subtree; the walker never produces one, the
/// case only keeps this function total.
pub open spec fn spec_walk_one(
    children: Seq<FsNode>,
    s: (usize, u8),
    is_last: bool,
    ctx: WalkCtx,
    opts: OptModel,
) -> WalkOut
    decreases children, 0int, 0int,
{
    let child = children[s.0 as int];
    let path = child_path(ctx.dir_path, child.name@);
    let ev = EventModel {
        name: child.name@,
        path: path,
        kind: child.kind,
        depth: ctx.depth,
        is_last: is_last,
        prefix: ctx.prefix,
        display: match ctx.path_prefix {
            Some(pp) => child_path(pp, child.name@),
            None => child.name@,
        },
    };
    if child.kind == EntryKind::Directory {
        let head = WalkOut { events: seq![ev], dirs: 1, files: 0, failed: None };
        if !spec_should_enter(ctx.depth, opts.max_level) {
            head
        } else if !enter_ok(ctx.chain, child.ignore_lines) {
            WalkOut {
                events: seq![ev],
                dirs: 1,
                files: 0,
                failed: Some(WalkFailure::IgnoreFile { path }),
            }
        } else {
            let sub = if (s.0 as int) < children.len() {
                spec_walk(
                    child,
                    child_ctx(ctx, s.1 as int, child.name@, child.ignore_lines, is_last),
                    opts,
                )
            } else {
                walk_empty()
            };
            combine(head, sub)
        }
    } else {
        WalkOut { events: seq![ev], dirs: 0, files: 1, failed: None }
    }
}

// ---------------------------------------------------------------------------
// Counters
// ---------------------------------------------------------------------------

/// The directory and file counters of one run, with the final report line.
pub struct TreeStats {
    pub dirs: usize,
    pub files: usize,
}

impl TreeStats {
    pub fn new() -> (r: TreeStats)
        ensures
            r.dirs == 0,
            r.files == 0,
    {
        TreeStats { dirs: 0, files: 0 }
    }

    pub fn dirs(&self) -> (r: usize)
        ensures
            r == self.dirs,
    {
        self.dirs
    }

    pub fn files(&self) -> (r: usize)
        ensures
            r == self.files,
    {
        self.files
    }

    /// Renders the closing report line ("N directories, M files"), in the
    /// exact shape the reference tool uses.
    pub fn write(&self, options: &TreeOptions) -> (r: String)
        ensures
            r@ == spec_report(
                self.dirs as int,
                self.files as int,
                options.list_directories_only,
            ),
    {
        render_report(self.dirs, self.files, options.list_directories_only)
    }
}

// ---------------------------------------------------------------------------
// The walker
// ---------------------------------------------------------------------------

/// A directory frame of the depth-first walk: the filter (state and ignore
/// chain), the depth, the indentation so far, the display path prefix, and
/// the directory's path.
pub struct Tree {
    pub filter: TreeFilter,
    pub depth: usize,
    pub prefix: String,
    pub path_prefix: Option<String>,
    pub root: String,
}

impl Tree {
    pub open spec fn wf(&self) -> bool {
        self.filter.wf()
    }

    /// The traversal state this frame stands for.
    pub open spec fn ctx(&self) -> WalkCtx {
        WalkCtx {
            state: self.filter.state.matched_dir_depth as int,
            chain: self.filter.chain_model(),
            depth: self.depth as int,
            prefix: self.prefix@,
            path_prefix: match self.path_prefix {
                Some(p) => Some(p@),
                None => None,
            },
            dir_path: self.root@,
        }
    }

    /// Builds the frame for a traversal root: depth 0, no indentation, a
    /// fresh directory-match state, and an ignore chain from the root's
    /// ancestors and the global rule-set when ignore files are respected.
    /// Fails exactly when a respected ancestor rule file does not compile.
    pub fn new(
        root: String,
        options: &TreeOptions,
        global: Option<ignore::gitignore::Gitignore>,
        ancestors: &Vec<IgnoreSource>,
    ) -> (r: Result<Tree, TreeError>)
        ensures
            r is Ok <==> (options.respect_gitignore ==> (forall|i: int|
                0 <= i < ancestors.len() ==> source_ok(ancestors@[i]))),
            r matches Ok(t) ==> {
                &&& t.wf()
                &&& t.ctx() == WalkCtx {
                    state: 0,
                    chain: (if options.respect_gitignore {
                        Some(root_chain(global, ancestors@))
                    } else {
                        None::<Seq<GiModel>>
                    }),
                    depth: 0,
                    prefix: Seq::<char>::empty(),
                    path_prefix: (if options.print_full_path_prefix {
                        Some(root@)
                    } else {
                        None::<Seq<char>>
                    }),
                    dir_path: root@,
                }
            },
    {
        let path_prefix = if options.print_full_path_prefix {
            Some(String::from_str(root.as_str()))
        } else {
            None
        };
        match TreeFilter::new(options, global, ancestors) {
            Ok(f) => {
                let t = Tree {
                    filter: f,
                    depth: 0,
                    prefix: String::from_str(""),
                    path_prefix,
                    root,
                };
                proof {
                    reveal_strlit("");
                    assert(t.prefix@ =~= Seq::<char>::empty());
                }
                Ok(t)
            },
            Err(e) => Err(e),
        }
    }

    /// The directory this frame lists.
    pub fn root(&self) -> (r: &String)
        ensures
            r == &self.root,
    {
        &self.root
    }

    /// Builds the frame for a kept child directory.
    fn enter_dir(
        &self,
        dir: FilteredEntry,
        is_last: bool,
        ignore_lines: &Option<Vec<String>>,
        options: &TreeOptions,
    ) -> (r: Result<Tree, TreeError>)
        requires
            self.wf(),
            dir.filter_state.matched_dir_depth <= 2,
            self.depth < usize::MAX,
            dir.entry.path@ == child_path(self.ctx().dir_path, dir.entry.file_name@),
        ensures
            r is Ok <==> enter_ok(self.ctx().chain, *ignore_lines),
            r matches Ok(t) ==> {
                &&& t.wf()
                &&& t.depth == self.depth + 1
                &&& t.ctx() == child_ctx(
                    self.ctx(),
                    dir.filter_state.matched_dir_depth as int,
                    dir.entry.file_name@,
                    *ignore_lines,
                    is_last,
                )
            },
            r matches Err(e) ==> matches_failure(
                e,
                WalkFailure::IgnoreFile {
                    path: child_path(self.ctx().dir_path, dir.entry.file_name@),
                },
            ),
    {
        let new_prefix = if is_last {
            "    "
        } else {
            "│   "
        };
        match self.filter.enter_dir(&dir.entry, options, dir.filter_state, ignore_lines) {
            Ok(f) => {
                let prefix = String::from_str(self.prefix.as_str()).concat(new_prefix);
                let path_prefix = match &self.path_prefix {
                    Some(pp) => Some(
                        String::from_str(pp.as_str()).concat("/").concat(
                            dir.entry.file_name.as_str(),
                        ),
                    ),
                    None => None,
                };
                let t = Tree {
                    filter: f,
                    depth: self.depth + 1,
                    prefix,
                    path_prefix,
                    root: dir.entry.into_path(),
                };
                proof {
                    assert(t.ctx().prefix =~= self.ctx().prefix + (if is_last {
                        "    "@
                    } else {
                        "│   "@
                    }));
                    match &self.path_prefix {
                        Some(pp) => {
                            assert(t.ctx().path_prefix->0 =~= child_path(
                                pp@,
                                dir.entry.file_name@,
                            ));
                        },
                        None => {},
                    }
                }
                Ok(t)
            },
            Err(e) => Err(e),
        }
    }

    /// Reports one survivor: pushes its event, counts it, and expands a kept
    /// directory unless the depth limit was reached.
    fn write_entry(
        &self,
        children: &Vec<FsNode>,
        ix: usize,
        cs: u8,
        is_last: bool,
        options: &TreeOptions,
        out: &mut Vec<TreeEvent>,
        stats: &mut TreeStats,
    ) -> (r: Result<(), TreeError>)
        requires
            self.wf(),
            ix < children.len(),
            wf_node(children@[ix as int]),
            cs <= 2,
            self.depth + 1 + count_node(children@[ix as int]) <= usize::MAX,
        ensures
            ({
                let w = spec_walk_one(children@, (ix, cs), is_last, self.ctx(), options@);
                &&& events_of(final(out)@) == events_of(old(out)@) + w.events
                &&& final(stats).dirs as int == sat_add(old(stats).dirs as int, w.dirs as int)
                &&& final(stats).files as int == sat_add(old(stats).files as int, w.files as int)
                &&& (r is Ok) == (w.failed is None)
                &&& (r matches Err(e) ==> w.failed matches Some(f) && matches_failure(e, f))
            }),
        decreases count_node(children@[ix as int]), 1int,
    {
        let ghost w = spec_walk_one(children@, (ix, cs), is_last, self.ctx(), options@);
        let child = &children[ix];
        let path = String::from_str(self.root.as_str()).concat("/").concat(child.name.as_str());
        proof {
            assert(path@ =~= child_path(self.ctx().dir_path, child.name@));
        }
        let display = match &self.path_prefix {
            Some(pp) => {
                let d = String::from_str(pp.as_str()).concat("/").concat(child.name.as_str());
                proof {
                    assert(d@ =~= child_path(pp@, child.name@));
                }
                d
            },
            None => String::from_str(child.name.as_str()),
        };
        let event = TreeEvent {
            name: String::from_str(child.name.as_str()),
            path: String::from_str(path.as_str()),
            kind: child.kind,
            depth: self.depth,
            is_last,
            prefix: String::from_str(self.prefix.as_str()),
            display,
        };
        let ghost out0 = out@;
        out.push(event);
        proof {
            assert(events_of(out@) =~= events_of(out0).push(event@));
            assert(events_of(out0).push(event@) =~= events_of(out0) + seq![event@]);
        }
        let is_directory = matches!(child.kind, EntryKind::Directory);
        if is_directory {
            if stats.dirs < usize::MAX {
                stats.dirs = stats.dirs + 1;
            }
            let should_enter = match options.max_level {
                Some(ml) => self.depth + 1 < ml,
                None => true,
            };
            if should_enter {
                let fe = FilteredEntry {
                    filter_state: FilterState { matched_dir_depth: cs },
                    entry: Entry {
                        file_name: String::from_str(child.name.as_str()),
                        path,
                        ty: child.kind,
                    },
                };
                match self.enter_dir(fe, is_last, &child.ignore_lines, options) {
                    Ok(child_tree) => {
                        proof {
                            lemma_count_elem(children@, ix as int);
                        }
                        match child_tree.write(child, options, out, stats) {
                            Ok(_) => {
                                proof {
                                    let sub = spec_walk(
                                        *child,
                                        child_ctx(
                                            self.ctx(),
                                            cs as int,
                                            child.name@,
                                            child.ignore_lines,
                                            is_last,
                                        ),
                                        options@,
                                    );
                                    assert(w.events =~= seq![event@] + sub.events);
                                    assert(events_of(out@) =~= events_of(out0) + w.events);
                                }
                                Ok(())
                            },
                            Err(e) => {
                                proof {
                                    let sub = spec_walk(
                                        *child,
                                        child_ctx(
                                            self.ctx(),
                                            cs as int,
                                            child.name@,
                                            child.ignore_lines,
                                            is_last,
                                        ),
                                        options@,
                                    );
                                    assert(w.events =~= seq![event@] + sub.events);
                                    assert(events_of(out@) =~= events_of(out0) + w.events);
                                }
                                Err(e)
                            },
                        }
                    },
                    Err(e) => {
                        proof {
                            assert(w.events =~= seq![event@]);
                            assert(events_of(out@) =~= events_of(out0) + w.events);
                        }
                        Err(e)
                    },
                }
            } else {
                proof {
                    assert(w.events =~= seq![event@]);
                    assert(events_of(out@) =~= events_of(out0) + w.events);
                }
                Ok(())
            }
        } else {
            if stats.files < usize::MAX {
                stats.files = stats.files + 1;
            }
            proof {
                assert(w.events =~= seq![event@]);
                assert(events_of(out@) =~= events_of(out0) + w.events);
            }
            Ok(())
        }
    }

    /// Lists one directory of the snapshot: filters its entries, sorts the
    /// survivors by name, counts the root once when anything survived, and
    /// reports each survivor in order, expanding kept subdirectories
    /// depth-first. The events and counts are exactly those of `spec_walk`;
    /// the walk stops at the first directory whose listing is missing or
    /// whose rule lines do not compile, keeping everything reported so far.
    pub fn write(
        &self,
        node: &FsNode,
        options: &TreeOptions,
        out: &mut Vec<TreeEvent>,
        stats: &mut TreeStats,
    ) -> (r: Result<(), TreeError>)
        requires
            self.wf(),
            wf_node(*node),
            self.depth + count_node(*node) <= usize::MAX,
        ensures
            ({
                let w = spec_walk(*node, self.ctx(), options@);
                &&& events_of(final(out)@) == events_of(old(out)@) + w.events
                &&& final(stats).dirs as int == sat_add(old(stats).dirs as int, w.dirs as int)
                &&& final(stats).files as int == sat_add(old(stats).files as int, w.files as int)
                &&& (r is Ok) == (w.failed is None)
                &&& (r matches Err(e) ==> w.failed matches Some(f) && matches_failure(e, f))
            }),
        decreases count_node(*node), 0int,
    {
        let ghost w = spec_walk(*node, self.ctx(), options@);
        let entries = match &node.entries {
            None => {
                let e = TreeError::ReadDir { path: String::from_str(self.root.as_str()) };
                proof {
                    assert(w.events =~= Seq::<EventModel>::empty());
                    assert(events_of(out@) =~= events_of(out@) + w.events);
                }
                return Err(e);
            },
            Some(es) => es,
        };
        let mut survivors: Vec<(usize, u8)> = Vec::new();
        let mut i: usize = 0;
        proof {
            assert(survivors@ =~= surv_upto(entries@, 0, self.ctx(), options@));
        }
        while i < entries.len()
            invariant
                0 <= i <= entries.len(),
                self.wf(),
                survivors@ == surv_upto(entries@, i as int, self.ctx(), options@),
                forall|k: int|
                    0 <= k < survivors@.len() ==> (#[trigger] survivors@[k]).0 < entries@.len()
                        && survivors@[k].1 <= 2,
            decreases entries.len() - i,
        {
            let child = &entries[i];
            let entry = Entry {
                file_name: String::from_str(child.name.as_str()),
                path: String::from_str(self.root.as_str()).concat("/").concat(
                    child.name.as_str(),
                ),
                ty: child.kind,
            };
            proof {
                assert(entry.path@ =~= child_path(self.ctx().dir_path, child.name@));
            }
            match self.filter.filter(entry, options) {
                Some(fe) => {
                    survivors.push((i, fe.filter_state.matched_dir_depth));
                    proof {
                        assert(keep_child(entries@[i as int], self.ctx(), options@) == Some(
                            fe.filter_state.matched_dir_depth as int,
                        ));
                        assert(surv_upto(entries@, i as int + 1, self.ctx(), options@)
                            =~= surv_upto(entries@, i as int, self.ctx(), options@) + seq![
                            (i, fe.filter_state.matched_dir_depth),
                        ]);
                    }
                },
                None => {
                    proof {
                        assert(keep_child(entries@[i as int], self.ctx(), options@) is None);
                        assert(surv_upto(entries@, i as int + 1, self.ctx(), options@)
                            =~= surv_upto(entries@, i as int, self.ctx(), options@));
                    }
                },
            }
            i = i + 1;
        }
        let ghost sv = survivors@;
        let sorted = sort_survivors(entries, survivors);
        if self.depth == 0 && sorted.len() > 0 {
            if stats.dirs < usize::MAX {
                stats.dirs = stats.dirs + 1;
            }
        }
        let ghost ctx = self.ctx();
        let ghost opts = options@;
        let ghost children = entries@;
        let ghost all = sorted@;
        let ghost lall = spec_walk_list(children, all, ctx, opts);
        let ghost root_inc: nat = if ctx.depth == 0 && all.len() > 0 {
            1
        } else {
            0
        };
        let ghost ev0 = events_of(out@);
        let ghost dirs0 = old(stats).dirs as int;
        let ghost files0 = old(stats).files as int;
        let ghost mut gd: nat = 0;
        let ghost mut gf: nat = 0;
        proof {
            assert(sv == surv_upto(children, children.len() as int, ctx, opts));
            assert(all == spec_sort(children, sv));
            assert(w == combine(
                WalkOut {
                    events: Seq::<EventModel>::empty(),
                    dirs: root_inc,
                    files: 0,
                    failed: None,
                },
                lall,
            ));
            assert(all.skip(0) =~= all);
            assert(events_of(out@).skip(ev0.len() as int) =~= Seq::<EventModel>::empty());
            assert(ev0 + events_of(out@).skip(ev0.len() as int) =~= events_of(out@));
            assert(Seq::<EventModel>::empty() + lall.events =~= lall.events);
            assert(combine(
                WalkOut {
                    events: events_of(out@).skip(ev0.len() as int),
                    dirs: 0nat,
                    files: 0nat,
                    failed: None,
                },
                lall,
            ) == lall);
        }
        let mut k: usize = 0;
        while k < sorted.len()
            invariant
                0 <= k <= sorted.len(),
                self.wf(),
                wf_node(*node),
                self.depth + count_node(*node) <= usize::MAX,
                node.entries == Some(*entries),
                children == entries@,
                ctx == self.ctx(),
                opts == options@,
                all == sorted@,
                lall == spec_walk_list(children, all, ctx, opts),
                ev0 == events_of(old(out)@),
                dirs0 == old(stats).dirs as int,
                files0 == old(stats).files as int,
                w == spec_walk(*node, self.ctx(), options@),
                w == combine(
                    WalkOut {
                        events: Seq::<EventModel>::empty(),
                        dirs: root_inc,
                        files: 0,
                        failed: None,
                    },
                    lall,
                ),
                root_inc == (if ctx.depth == 0 && all.len() > 0 {
                    1nat
                } else {
                    0nat
                }),
                forall|j: int|
                    0 <= j < all.len() ==> (#[trigger] all[j]).0 < children.len() && all[j].1 <= 2,
                events_of(out@).len() >= ev0.len(),
                events_of(out@) == ev0 + events_of(out@).skip(ev0.len() as int),
                stats.dirs as int == sat_add(dirs0, (root_inc + gd) as int),
                stats.files as int == sat_add(files0, gf as int),
                combine(
                    WalkOut {
                        events: events_of(out@).skip(ev0.len() as int),
                        dirs: gd,
                        files: gf,
                        failed: None,
                    },
                    spec_walk_list(children, all.skip(k as int), ctx, opts),
                ) == lall,
            decreases sorted.len() - k,
        {
            let (ix, cs) = sorted[k];
            let is_last = k == sorted.len() - 1;
            let ghost w1 = spec_walk_one(children, all[k as int], is_last, ctx, opts);
            let ghost acc = WalkOut {
                events: events_of(out@).skip(ev0.len() as int),
                dirs: gd,
                files: gf,
                failed: None,
            };
            proof {
                assert(all[k as int] == (ix, cs)) by {
                    assert(all[k as int].0 == ix);
                    assert(all[k as int].1 == cs);
                }
                assert(all.skip(k as int)[0] == all[k as int]);
                assert(all.skip(k as int).drop_first() =~= all.skip(k as int + 1));
                assert((all.skip(k as int).len() == 1) == is_last);
                assert(spec_walk_list(children, all.skip(k as int), ctx, opts) == combine(
                    w1,
                    spec_walk_list(children, all.skip(k as int + 1), ctx, opts),
                ));
                lemma_count_elem(children, ix as int);
                assert(wf_node(children[ix as int]));
            }
            match self.write_entry(entries, ix, cs, is_last, options, out, stats) {
                Ok(_) => {
                    proof {
                        gd = gd + w1.dirs;
                        gf = gf + w1.files;
                        lemma_sat_add_assoc(dirs0, (root_inc + acc.dirs) as int, w1.dirs as int);
                        lemma_sat_add_assoc(files0, acc.files as int, w1.files as int);
                        assert(events_of(out@).skip(ev0.len() as int) =~= acc.events + w1.events);
                        lemma_combine_assoc(
                            acc,
                            w1,
                            spec_walk_list(children, all.skip(k as int + 1), ctx, opts),
                        );
                        assert(combine(acc, w1) == WalkOut {
                            events: acc.events + w1.events,
                            dirs: gd,
                            files: gf,
                            failed: None,
                        });
                    }
                    k = k + 1;
                },
                Err(e) => {
                    proof {
                        assert(combine(w1, spec_walk_list(children, all.skip(k as int + 1), ctx, opts))
                            == w1);
                        assert(lall == combine(acc, w1));
                        assert(lall.failed == w1.failed);
                        assert(w == combine(
                            WalkOut {
                                events: Seq::<EventModel>::empty(),
                                dirs: root_inc,
                                files: 0,
                                failed: None,
                            },
                            lall,
                        ));
                        assert(events_of(out@) =~= ev0 + w.events);
                        lemma_sat_add_assoc(dirs0, (root_inc + acc.dirs) as int, w1.dirs as int);
                        lemma_sat_add_assoc(files0, acc.files as int, w1.files as int);
                    }
                    return Err(e);
                },
            }
        }
        proof {
            assert(all.skip(all.len() as int).len() == 0);
            let acc = WalkOut {
                events: events_of(out@).skip(ev0.len() as int),
                dirs: gd,
                files: gf,
                failed: None,
            };
            assert(combine(acc, walk_empty()) == WalkOut {
                events: acc.events + Seq::<EventModel>::empty(),
                dirs: gd,
                files: gf,
                failed: None,
            });
            assert(acc.events + Seq::<EventModel>::empty() =~= acc.events);
            assert(lall == WalkOut { events: acc.events, dirs: gd, files: gf, failed: None });
            assert(w == combine(
                WalkOut {
                    events: Seq::<EventModel>::empty(),
                    dirs: root_inc,
                    files: 0,
                    failed: None,
                },
                lall,
            ));
            assert(w.events =~= Seq::<EventModel>::empty() + acc.events);
            assert(events_of(out@) =~= ev0 + w.events);
        }
        Ok(())
    }
}

/// Capped addition is unchanged by adding in stages.
proof fn lemma_sat_add_assoc(a: int, b: int, c: int)
    requires
        b >= 0,
        c >= 0,
    ensures
        sat_add(sat_add(a, b), c) == sat_add(a, b + c),
{
}

/// Sequencing of outcomes is associative.
proof fn lemma_combine_assoc(a: WalkOut, b: WalkOut, c: WalkOut)
    ensures
        combine(combine(a, b), c) == combine(a, combine(b, c)),
{
    if a.failed is None && b.failed is None {
        assert((a.events + b.events) + c.events =~= a.events + (b.events + c.events));
    }
}

/// Inserting at the first position whose element is strictly greater is what
/// `spec_insert` does.
proof fn lemma_insert_at(children: Seq<FsNode>, x: (usize, u8), s: Seq<(usize, u8)>, j: int)
    requires
        0 <= j <= s.len(),
        forall|k: int| 0 <= k < j ==> !surv_lt(children, x, #[trigger] s[k]),
        j < s.len() ==> surv_lt(children, x, s[j]),
    ensures
        spec_insert(children, x, s) == s.take(j) + seq![x] + s.skip(j),
    decreases j,
{
    if s.len() == 0 {
        assert(spec_insert(children, x, s) =~= s.take(0) + seq![x] + s.skip(0));
    } else if j == 0 {
        assert(spec_insert(children, x, s) =~= s.take(0) + seq![x] + s.skip(0));
    } else {
        lemma_insert_at(children, x, s.drop_first(), j - 1);
        assert(s.drop_first().take(j - 1) =~= s.take(j).drop_first());
        assert(s.drop_first().skip(j - 1) =~= s.skip(j));
        assert(seq![s[0]] + (s.drop_first().take(j - 1) + seq![x] + s.drop_first().skip(j - 1))
            =~= s.take(j) + seq![x] + s.skip(j));
    }
}

/// Sorts the survivors of one directory by name, keeping the listing order
/// between equal names.
fn sort_survivors(children: &Vec<FsNode>, survivors: Vec<(usize, u8)>) -> (r: Vec<(usize, u8)>)
    requires
        forall|k: int|
            0 <= k < survivors@.len() ==> (#[trigger] survivors@[k]).0 < children@.len(),
    ensures
        r@ == spec_sort(children@, survivors@),
        forall|k: int|
            0 <= k < r@.len() ==> exists|j: int|
                0 <= j < survivors@.len() && #[trigger] r@[k] == survivors@[j],
{
    let mut acc: Vec<(usize, u8)> = Vec::new();
    let mut i: usize = 0;
    proof {
        assert(acc@ =~= spec_sort(children@, survivors@.take(0)));
    }
    while i < survivors.len()
        invariant
            0 <= i <= survivors.len(),
            forall|k: int|
                0 <= k < survivors@.len() ==> (#[trigger] survivors@[k]).0 < children@.len(),
            acc@ == spec_sort(children@, survivors@.take(i as int)),
            forall|k: int|
                0 <= k < acc@.len() ==> exists|j: int|
                    0 <= j < i && #[trigger] acc@[k] == survivors@[j],
        decreases survivors.len() - i,
    {
        let x = survivors[i];
        let mut j: usize = 0;
        while j < acc.len()
            invariant
                0 <= j <= acc@.len(),
                x.0 < children@.len(),
                forall|k: int|
                    0 <= k < acc@.len() ==> (#[trigger] acc@[k]).0 < children@.len(),
                forall|k: int| 0 <= k < j ==> !surv_lt(children@, x, #[trigger] acc@[k]),
            ensures
                0 <= j <= acc@.len(),
                forall|k: int| 0 <= k < j ==> !surv_lt(children@, x, #[trigger] acc@[k]),
                j < acc@.len() ==> surv_lt(children@, x, acc@[j as int]),
            decreases acc.len() - j,
        {
            let cand = acc[j];
            let xn = &children[x.0];
            let cn = &children[cand.0];
            let less = matches!(
                crate::text::cmp_str(xn.name.as_str(), cn.name.as_str()),
                core::cmp::Ordering::Less,
            );
            proof {
                assert(acc@[j as int].0 < children@.len());
                assert(less == surv_lt(children@, x, acc@[j as int]));
            }
            if less {
                break;
            }
            j = j + 1;
        }
        proof {
            lemma_insert_at(children@, x, acc@, j as int);
        }
        let ghost acc0 = acc@;
        acc.insert(j, x);
        proof {
            assert(acc@ =~= acc0.take(j as int) + seq![x] + acc0.skip(j as int));
            assert(survivors@.take(i as int + 1).drop_last() =~= survivors@.take(i as int));
            assert(survivors@.take(i as int + 1).last() == survivors@[i as int]);
        }
        i = i + 1;
    }
    proof {
        assert(survivors@.take(survivors@.len() as int) =~= survivors@);
    }
    acc
}

// ---------------------------------------------------------------------------
// Laws of the walk
// ---------------------------------------------------------------------------

/// The name a survivor is ordered by.
pub open spec fn surv_name(children: Seq<FsNode>, a: (usize, u8)) -> Seq<char> {
    children[a.0 as int].name@
}

/// Ascending name order of a survivor list.
pub open spec fn sorted_by_name(children: Seq<FsNode>, s: Seq<(usize, u8)>) -> bool {
    forall|i: int, j: int|
        0 <= i < j < s.len() ==> lex_le(
            surv_name(children, #[trigger] s[i]),
            surv_name(children, #[trigger] s[j]),
        )
}

/// An insertion holds the new element and elements of the old list, one more
/// than before.
proof fn lemma_insert_elems(children: Seq<FsNode>, x: (usize, u8), s: Seq<(usize, u8)>)
    ensures
        spec_insert(children, x, s).len() == s.len() + 1,
        forall|k: int|
            0 <= k < spec_insert(children, x, s).len() ==> (#[trigger] spec_insert(
                children,
                x,
                s,
            )[k]) == x || s.contains(spec_insert(children, x, s)[k]),
    decreases s.len(),
{
    let r = spec_insert(children, x, s);
    if s.len() == 0 {
    } else if surv_lt(children, x, s[0]) {
        assert forall|k: int| 0 <= k < r.len() implies (#[trigger] r[k]) == x || s.contains(
            r[k],
        ) by {
            if k > 0 {
                assert(r[k] == s[k - 1]);
                assert(s.contains(s[k - 1]));
            }
        }
    } else {
        lemma_insert_elems(children, x, s.drop_first());
        let t = spec_insert(children, x, s.drop_first());
        assert forall|k: int| 0 <= k < r.len() implies (#[trigger] r[k]) == x || s.contains(
            r[k],
        ) by {
            if k == 0 {
                assert(s.contains(s[0]));
            } else {
                assert(r[k] == t[k - 1]);
                if t[k - 1] != x {
                    let m = choose|m: int|
                        0 <= m < s.drop_first().len() && s.drop_first()[m] == t[k - 1];
                    assert(s[m + 1] == t[k - 1]);
                    assert(s.contains(s[m + 1]));
                }
            }
        }
    }
}

/// Inserting into a name-sorted list keeps it sorted.
proof fn lemma_insert_sorted(children: Seq<FsNode>, x: (usize, u8), s: Seq<(usize, u8)>)
    requires
        sorted_by_name(children, s),
    ensures
        sorted_by_name(children, spec_insert(children, x, s)),
    decreases s.len(),
{
    let r = spec_insert(children, x, s);
    if s.len() == 0 {
    } else if surv_lt(children, x, s[0]) {
        assert forall|i: int, j: int| 0 <= i < j < r.len() implies lex_le(
            surv_name(children, #[trigger] r[i]),
            surv_name(children, #[trigger] r[j]),
        ) by {
            assert(r[j] == s[j - 1]);
            if i == 0 {
                if j > 1 {
                    lemma_lex_trans(
                        surv_name(children, x),
                        surv_name(children, s[0]),
                        surv_name(children, s[j - 1]),
                    );
                }
            } else {
                assert(r[i] == s[i - 1]);
            }
        }
    } else {
        lemma_lex_total(surv_name(children, x), surv_name(children, s[0]));
        if surv_name(children, x) == surv_name(children, s[0]) {
            lemma_lex_total(surv_name(children, x), surv_name(children, x));
        }
        assert(sorted_by_name(children, s.drop_first())) by {
            assert forall|i: int, j: int| 0 <= i < j < s.drop_first().len() implies lex_le(
                surv_name(children, #[trigger] s.drop_first()[i]),
                surv_name(children, #[trigger] s.drop_first()[j]),
            ) by {
                assert(s.drop_first()[i] == s[i + 1]);
                assert(s.drop_first()[j] == s[j + 1]);
            }
        }
        lemma_insert_sorted(children, x, s.drop_first());
        lemma_insert_elems(children, x, s.drop_first());
        let t = spec_insert(children, x, s.drop_first());
        assert forall|i: int, j: int| 0 <= i < j < r.len() implies lex_le(
            surv_name(children, #[trigger] r[i]),
            surv_name(children, #[trigger] r[j]),
        ) by {
            assert(r[j] == t[j - 1]);
            if i == 0 {
                assert(r[0] == s[0]);
                if t[j - 1] == x {
                    assert(lex_le(surv_name(children, s[0]), surv_name(children, x)));
                } else {
                    let m = choose|m: int|
                        0 <= m < s.drop_first().len() && s.drop_first()[m] == t[j - 1];
                    assert(s[m + 1] == t[j - 1]);
                    assert(lex_le(surv_name(children, s[0]), surv_name(children, s[m + 1])));
                }
            } else {
                assert(r[i] == t[i - 1]);
            }
        }
    }
}

/// The survivors of one directory are reported in ascending name order: the
/// list `spec_walk` processes is sorted however the raw listing arrived.
pub proof fn lemma_sort_sorted(children: Seq<FsNode>, s: Seq<(usize, u8)>)
    ensures
        sorted_by_name(children, spec_sort(children, s)),
    decreases s.len(),
{
    if s.len() > 0 {
        lemma_sort_sorted(children, s.drop_last());
        lemma_insert_sorted(children, s.last(), spec_sort(children, s.drop_last()));
    }
}

/// An insertion adds exactly the new element to the list's multiset.
proof fn lemma_insert_multiset(children: Seq<FsNode>, x: (usize, u8), s: Seq<(usize, u8)>)
    ensures
        spec_insert(children, x, s).to_multiset() =~= s.to_multiset().insert(x),
    decreases s.len(),
{
    broadcast use vstd::seq_lib::group_to_multiset_ensures;

    if s.len() == 0 {
        assert(seq![x] =~= Seq::<(usize, u8)>::empty().push(x));
        assert(s.to_multiset() =~= Multiset::<(usize, u8)>::empty());
    } else if surv_lt(children, x, s[0]) {
        vstd::seq_lib::lemma_multiset_commutative(seq![x], s);
        assert(seq![x] =~= Seq::<(usize, u8)>::empty().push(x));
        assert(seq![x].to_multiset() =~= Multiset::<(usize, u8)>::empty().insert(x));
    } else {
        lemma_insert_multiset(children, x, s.drop_first());
        let t = spec_insert(children, x, s.drop_first());
        vstd::seq_lib::lemma_multiset_commutative(seq![s[0]], t);
        vstd::seq_lib::lemma_multiset_commutative(seq![s[0]], s.drop_first());
        assert(seq![s[0]] + s.drop_first() =~= s);
        assert(seq![s[0]] =~= Seq::<(usize, u8)>::empty().push(s[0]));
        assert(seq![s[0]].to_multiset() =~= Multiset::<(usize, u8)>::empty().insert(s[0]));
    }
}

/// The sort only reorders the survivors: none is lost, none is invented, and
/// each keeps the state it carries.
pub proof fn lemma_sort_permutes(children: Seq<FsNode>, s: Seq<(usize, u8)>)
    ensures
        spec_sort(children, s).to_multiset() =~= s.to_multiset(),
    decreases s.len(),
{
    broadcast use vstd::seq_lib::group_to_multiset_ensures;

    if s.len() > 0 {
        lemma_sort_permutes(children, s.drop_last());
        lemma_insert_multiset(children, s.last(), spec_sort(children, s.drop_last()));
        assert(s =~= s.drop_last().push(s.last()));
    }
}

/// Walking an unchanged snapshot twice with the same configuration and the
/// same starting state yields the same ordered events, the same counts and
/// the same outcome: the walk is a function of snapshot, state and
/// configuration alone.
pub proof fn lemma_walk_deterministic(
    w1: WalkOut,
    w2: WalkOut,
    node: FsNode,
    ctx: WalkCtx,
    opts: OptModel,
)
    requires
        w1 == spec_walk(node, ctx, opts),
        w2 == spec_walk(node, ctx, opts),
    ensures
        w1 == w2,
{
}

/// Root counting: a root whose filtered listing is empty contributes nothing
/// to the directory count and reports nothing; a root with at least one
/// surviving entry contributes exactly one, however many entries it has.
pub proof fn lemma_root_count(node: FsNode, ctx: WalkCtx, opts: OptModel)
    requires
        ctx.depth == 0,
        node.entries is Some,
    ensures
        ({
            let es = node.entries->0@;
            let survivors = spec_sort(es, surv_upto(es, es.len() as int, ctx, opts));
            &&& (survivors.len() == 0 ==> spec_walk(node, ctx, opts).dirs == 0 && spec_walk(
                node,
                ctx,
                opts,
            ).events.len() == 0)
            &&& (survivors.len() > 0 ==> spec_walk(node, ctx, opts).dirs == 1 + spec_walk_list(
                es,
                survivors,
                ctx,
                opts,
            ).dirs)
        }),
{
    let es = node.entries->0@;
    let survivors = spec_sort(es, surv_upto(es, es.len() as int, ctx, opts));
    if survivors.len() == 0 {
        assert(spec_walk_list(es, survivors, ctx, opts) == walk_empty());
        assert(spec_walk(node, ctx, opts).events =~= Seq::<EventModel>::empty());
    }
}

} // verus!
