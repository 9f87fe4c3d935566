use riptree2::entry::EntryKind;
use riptree2::errors::TreeError;
use riptree2::options::TreeOptions;
use riptree2::tree::{FsNode, Tree, TreeEvent, TreeStats};

fn file(name: &str) -> FsNode {
    FsNode { name: name.to_string(), kind: EntryKind::File, ignore_lines: None, entries: None }
}

fn symlink(name: &str) -> FsNode {
    FsNode { name: name.to_string(), kind: EntryKind::Symlink, ignore_lines: None, entries: None }
}

fn dir(name: &str, entries: Vec<FsNode>) -> FsNode {
    FsNode {
        name: name.to_string(),
        kind: EntryKind::Directory,
        ignore_lines: None,
        entries: Some(entries),
    }
}

fn dir_with_rules(name: &str, rules: Vec<&str>, entries: Vec<FsNode>) -> FsNode {
    FsNode {
        name: name.to_string(),
        kind: EntryKind::Directory,
        ignore_lines: Some(rules.into_iter().map(|s| s.to_string()).collect()),
        entries: Some(entries),
    }
}

fn unreadable_dir(name: &str) -> FsNode {
    FsNode {
        name: name.to_string(),
        kind: EntryKind::Directory,
        ignore_lines: None,
        entries: None,
    }
}

fn plain_options() -> TreeOptions {
    let mut o = TreeOptions::default();
    o.respect_gitignore = false;
    o.icons = false;
    o
}

fn walk(root: &FsNode, options: &TreeOptions) -> (Vec<TreeEvent>, TreeStats, Result<(), TreeError>) {
    let tree = Tree::new("root".to_string(), options, None, &Vec::new()).unwrap();
    let mut out: Vec<TreeEvent> = Vec::new();
    let mut stats = TreeStats::new();
    let r = tree.write(root, options, &mut out, &mut stats);
    (out, stats, r)
}

fn names(events: &[TreeEvent]) -> Vec<String> {
    events.iter().map(|e| e.name.clone()).collect()
}

#[test]
fn sorts_entries_and_counts() {
    let root = dir("root", vec![file("b.txt"), file("a.txt"), dir("d", vec![file("c.txt")])]);
    let opts = plain_options();
    let (out, stats, r) = walk(&root, &opts);
    assert!(r.is_ok());
    assert_eq!(names(&out), vec!["a.txt", "b.txt", "d", "c.txt"]);
    assert_eq!(stats.dirs(), 2);
    assert_eq!(stats.files(), 3);
    assert_eq!(out[0].depth, 0);
    assert!(!out[0].is_last);
    assert!(out[2].is_last);
    assert_eq!(out[3].depth, 1);
    assert!(out[3].is_last);
    assert_eq!(out[3].prefix, "    ");
    assert_eq!(out[3].path, "root/d/c.txt");
}

#[test]
fn walking_twice_is_identical() {
    let root = dir(
        "root",
        vec![file("z"), dir("m", vec![file("q"), symlink("s")]), file("a")],
    );
    let opts = plain_options();
    let (out1, stats1, r1) = walk(&root, &opts);
    let (out2, stats2, r2) = walk(&root, &opts);
    assert_eq!(out1, out2);
    assert_eq!(stats1.dirs(), stats2.dirs());
    assert_eq!(stats1.files(), stats2.files());
    assert_eq!(r1.is_ok(), r2.is_ok());
}

#[test]
fn empty_root_counts_zero() {
    let root = dir("root", vec![]);
    let opts = plain_options();
    let (out, stats, r) = walk(&root, &opts);
    assert!(r.is_ok());
    assert!(out.is_empty());
    assert_eq!(stats.dirs(), 0);
    assert_eq!(stats.files(), 0);
}

#[test]
fn fully_filtered_root_counts_zero() {
    let root = dir("root", vec![file(".a"), file(".b")]);
    let opts = plain_options();
    let (out, stats, r) = walk(&root, &opts);
    assert!(r.is_ok());
    assert!(out.is_empty());
    assert_eq!(stats.dirs(), 0);
    assert_eq!(stats.files(), 0);
}

#[test]
fn surviving_root_counts_exactly_one() {
    let one = dir("root", vec![file("a")]);
    let many = dir("root", vec![file("a"), file("b"), file("c")]);
    let opts = plain_options();
    let (_, stats_one, _) = walk(&one, &opts);
    let (_, stats_many, _) = walk(&many, &opts);
    assert_eq!(stats_one.dirs(), 1);
    assert_eq!(stats_many.dirs(), 1);
}

#[test]
fn hidden_entries_suppressed_before_patterns() {
    let root = dir("root", vec![file(".hidden"), file("shown.txt")]);
    // A pattern that matches the hidden name does not rescue it.
    let args = riptree2::args::TreeArgs {
        show_hidden_files: false,
        list_directories_only: false,
        print_full_path_prefix: false,
        max_level: None,
        file_include_patterns: vec![".hidden".to_string(), "*".to_string()],
        file_exclude_patterns: vec![],
        ignore_case: false,
        match_dirs: false,
        compat: false,
        no_gitignore: true,
        gitignore: false,
        icons: false,
        no_icons: true,
        roots: vec![],
    };
    let opts = TreeOptions::from_args(args).unwrap();
    let (out, _, r) = walk(&root, &opts);
    assert!(r.is_ok());
    assert_eq!(names(&out), vec!["shown.txt"]);
}

#[test]
fn hidden_entries_shown_when_requested() {
    let root = dir("root", vec![file(".hidden"), file("shown.txt")]);
    let mut opts = plain_options();
    opts.show_hidden_files = true;
    let (out, _, _) = walk(&root, &opts);
    assert_eq!(names(&out), vec![".hidden", "shown.txt"]);
}

#[test]
fn dot_git_excluded_without_ignore_files() {
    let root = dir(
        "root",
        vec![dir(".git", vec![file("config")]), file("x.txt")],
    );
    let mut opts = plain_options();
    opts.show_hidden_files = true;
    assert!(!opts.respect_gitignore);
    let (out, stats, r) = walk(&root, &opts);
    assert!(r.is_ok());
    assert_eq!(names(&out), vec!["x.txt"]);
    assert_eq!(stats.dirs(), 1);
}

#[test]
fn max_level_lists_but_does_not_expand() {
    let root = dir("root", vec![dir("d", vec![file("c.txt")])]);
    let mut opts = plain_options();
    opts.max_level = Some(1);
    let (out, stats, r) = walk(&root, &opts);
    assert!(r.is_ok());
    assert_eq!(names(&out), vec!["d"]);
    assert_eq!(stats.dirs(), 2);
    assert_eq!(stats.files(), 0);
}

#[test]
fn unreadable_directory_stops_the_walk() {
    let root = dir("root", vec![unreadable_dir("d"), file("e.txt")]);
    let opts = plain_options();
    let (out, stats, r) = walk(&root, &opts);
    assert_eq!(r, Err(TreeError::ReadDir { path: "root/d".to_string() }));
    // The failing directory was already reported; the entry after it was not.
    assert_eq!(names(&out), vec!["d"]);
    assert_eq!(stats.dirs(), 2);
    assert_eq!(stats.files(), 0);
}

#[test]
fn directories_only_keeps_symlinks() {
    let root = dir("root", vec![file("f.txt"), symlink("s"), dir("d", vec![])]);
    let mut opts = plain_options();
    opts.list_directories_only = true;
    let (out, stats, _) = walk(&root, &opts);
    assert_eq!(names(&out), vec!["d", "s"]);
    assert_eq!(stats.dirs(), 2);
    assert_eq!(stats.files(), 1);
}

#[test]
fn full_path_prefix_in_display_names() {
    let root = dir("root", vec![dir("d", vec![file("c.txt")])]);
    let mut opts = plain_options();
    opts.print_full_path_prefix = true;
    let (out, _, _) = walk(&root, &opts);
    assert_eq!(out[0].display, "root/d");
    assert_eq!(out[1].display, "root/d/c.txt");
}

#[test]
fn compat_match_opens_immediate_children_only() {
    // Include pattern `src` with directory matching: a file directly inside
    // the matched directory is shown without matching; a grandchild file must
    // match again; directories are never pattern-rejected; a sibling
    // directory not under the match keeps pattern filtering for its files.
    let root = dir(
        "root",
        vec![
            dir(
                "src",
                vec![
                    file("notes.txt"),
                    dir(
                        "sub",
                        vec![file("deep.txt"), dir("src", vec![file("inner.txt")])],
                    ),
                ],
            ),
            dir("sub2b", vec![file("file2.txt")]),
        ],
    );
    let args = riptree2::args::TreeArgs {
        show_hidden_files: false,
        list_directories_only: false,
        print_full_path_prefix: false,
        max_level: None,
        file_include_patterns: vec!["src".to_string()],
        file_exclude_patterns: vec![],
        ignore_case: false,
        match_dirs: true,
        compat: true,
        no_gitignore: false,
        gitignore: false,
        icons: false,
        no_icons: false,
        roots: vec![],
    };
    let opts = TreeOptions::from_args(args).unwrap();
    let (out, stats, r) = walk(&root, &opts);
    assert!(r.is_ok());
    assert_eq!(names(&out), vec!["src", "notes.txt", "sub", "src", "sub2b"]);
    assert_eq!(stats.dirs(), 5);
    assert_eq!(stats.files(), 1);
}

#[test]
fn compat_without_match_dirs_filters_files_everywhere() {
    let root = dir("root", vec![dir("src", vec![file("notes.txt")])]);
    let args = riptree2::args::TreeArgs {
        show_hidden_files: false,
        list_directories_only: false,
        print_full_path_prefix: false,
        max_level: None,
        file_include_patterns: vec!["src".to_string()],
        file_exclude_patterns: vec![],
        ignore_case: false,
        match_dirs: false,
        compat: true,
        no_gitignore: false,
        gitignore: false,
        icons: false,
        no_icons: false,
        roots: vec![],
    };
    let opts = TreeOptions::from_args(args).unwrap();
    let (out, _, _) = walk(&root, &opts);
    // The directory is kept (compat mode never pattern-rejects directories)
    // but its file must match the pattern itself, and does not.
    assert_eq!(names(&out), vec!["src"]);
}

#[test]
fn non_compat_prunes_directories_by_pattern() {
    let root = dir(
        "root",
        vec![dir("src", vec![file("kept.rs")]), dir("other", vec![file("lost.rs")])],
    );
    let args = riptree2::args::TreeArgs {
        show_hidden_files: false,
        list_directories_only: false,
        print_full_path_prefix: false,
        max_level: None,
        file_include_patterns: vec!["src|*.rs".to_string()],
        file_exclude_patterns: vec![],
        ignore_case: false,
        match_dirs: false,
        compat: false,
        no_gitignore: true,
        gitignore: false,
        icons: false,
        no_icons: true,
        roots: vec![],
    };
    let opts = TreeOptions::from_args(args).unwrap();
    let (out, _, _) = walk(&root, &opts);
    assert_eq!(names(&out), vec!["src", "kept.rs"]);
}

#[test]
fn gitignore_rules_apply_during_walk() {
    let root = dir(
        "root",
        vec![dir_with_rules("sub", vec!["*.log"], vec![file("a.log"), file("b.txt")])],
    );
    let mut opts = plain_options();
    opts.respect_gitignore = true;
    let (out, _, r) = walk(&root, &opts);
    assert!(r.is_ok());
    assert_eq!(names(&out), vec!["sub", "b.txt"]);
}

#[test]
fn whitelist_in_nearer_rules_wins_during_walk() {
    let root = dir(
        "root",
        vec![dir_with_rules(
            "sub",
            vec!["!keep.log"],
            vec![file("keep.log"), file("drop.log")],
        )],
    );
    let mut opts = plain_options();
    opts.respect_gitignore = true;
    let tree = Tree::new(
        "root".to_string(),
        &opts,
        None,
        &vec![riptree2::ignore_dir::IgnoreSource {
            dir: "root".to_string(),
            lines: vec!["*.log".to_string()],
        }],
    )
    .unwrap();
    let mut out: Vec<TreeEvent> = Vec::new();
    let mut stats = TreeStats::new();
    let r = tree.write(&root, &opts, &mut out, &mut stats);
    assert!(r.is_ok());
    assert_eq!(names(&out), vec!["sub", "keep.log"]);
}

#[test]
fn bad_ignore_rules_stop_entering_that_directory() {
    let root = dir(
        "root",
        vec![dir_with_rules("sub", vec!["[z-a]"], vec![file("x.txt")])],
    );
    let mut opts = plain_options();
    opts.respect_gitignore = true;
    let (out, _, r) = walk(&root, &opts);
    assert_eq!(r, Err(TreeError::IgnoreFile { path: "root/sub".to_string() }));
    assert_eq!(names(&out), vec!["sub"]);
}
