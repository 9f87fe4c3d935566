use riptree2::args::TreeArgs;
use riptree2::entry::{Entry, EntryKind};
use riptree2::filter::{FilterState, TreeFilter};
use riptree2::options::TreeOptions;

fn args_with_patterns(patterns: Vec<&str>, ignore_case: bool) -> TreeArgs {
    TreeArgs {
        show_hidden_files: false,
        list_directories_only: false,
        print_full_path_prefix: false,
        max_level: None,
        file_include_patterns: patterns.into_iter().map(|s| s.to_string()).collect(),
        file_exclude_patterns: vec![],
        ignore_case,
        match_dirs: false,
        compat: false,
        no_gitignore: true,
        gitignore: false,
        icons: false,
        no_icons: true,
        roots: vec![],
    }
}

fn bare_filter() -> TreeFilter {
    TreeFilter { state: FilterState::default(), ignore_dir: None }
}

fn file_entry(name: &str) -> Entry {
    Entry::new(name.to_string(), format!("root/{name}"), EntryKind::File)
}

fn keeps(options: &TreeOptions, name: &str) -> bool {
    bare_filter().filter(file_entry(name), options).is_some()
}

#[test]
fn alternatives_split_on_bar() {
    let opts = TreeOptions::from_args(args_with_patterns(vec!["*.rs|*.toml"], false)).unwrap();
    assert!(keeps(&opts, "lib.rs"));
    assert!(keeps(&opts, "Cargo.toml"));
    assert!(!keeps(&opts, "README.md"));
}

#[test]
fn case_flag_applies_to_both_alternatives() {
    let sensitive = TreeOptions::from_args(args_with_patterns(vec!["*.RS|*.TOML"], false)).unwrap();
    assert!(!keeps(&sensitive, "lib.rs"));
    assert!(!keeps(&sensitive, "Cargo.toml"));
    let insensitive = TreeOptions::from_args(args_with_patterns(vec!["*.RS|*.TOML"], true)).unwrap();
    assert!(keeps(&insensitive, "lib.rs"));
    assert!(keeps(&insensitive, "Cargo.toml"));
    assert!(!keeps(&insensitive, "README.md"));
}

#[test]
fn exclusion_patterns_reject_files() {
    let mut args = args_with_patterns(vec![], false);
    args.file_exclude_patterns = vec!["*.log".to_string()];
    let opts = TreeOptions::from_args(args).unwrap();
    assert!(!keeps(&opts, "app.log"));
    assert!(keeps(&opts, "app.txt"));
}

#[test]
fn hidden_rejected_despite_matching_pattern() {
    let opts = TreeOptions::from_args(args_with_patterns(vec![".env"], false)).unwrap();
    assert!(bare_filter().filter(file_entry(".env"), &opts).is_none());
}

#[test]
fn dot_git_directory_rejected_without_chain() {
    let mut opts = TreeOptions::default();
    opts.respect_gitignore = false;
    opts.show_hidden_files = true;
    let entry = Entry::new(".git".to_string(), "root/.git".to_string(), EntryKind::Directory);
    assert!(bare_filter().filter(entry, &opts).is_none());
}

#[test]
fn compat_directory_match_advances_state() {
    let mut args = args_with_patterns(vec!["src"], false);
    args.compat = true;
    args.match_dirs = true;
    let opts = TreeOptions::from_args(args).unwrap();
    let f = bare_filter();

    // A matching directory at state 0 hands its children state 1.
    let d = Entry::new("src".to_string(), "root/src".to_string(), EntryKind::Directory);
    let fe = f.filter(d, &opts).unwrap();
    assert_eq!(fe.filter_state.matched_dir_depth, 1);

    // A non-matching directory at state 0 stays at state 0.
    let d0 = Entry::new("other".to_string(), "root/other".to_string(), EntryKind::Directory);
    let fe0 = f.filter(d0, &opts).unwrap();
    assert_eq!(fe0.filter_state.matched_dir_depth, 0);

    // At state 1 every directory moves its children on to state 2.
    let f1 = TreeFilter { state: FilterState { matched_dir_depth: 1 }, ignore_dir: None };
    let d1 = Entry::new("sub".to_string(), "root/src/sub".to_string(), EntryKind::Directory);
    let fe1 = f1.filter(d1, &opts).unwrap();
    assert_eq!(fe1.filter_state.matched_dir_depth, 2);

    // At state 2 nothing advances any further.
    let f2 = TreeFilter { state: FilterState { matched_dir_depth: 2 }, ignore_dir: None };
    let d2 = Entry::new("src".to_string(), "root/a/b/src".to_string(), EntryKind::Directory);
    let fe2 = f2.filter(d2, &opts).unwrap();
    assert_eq!(fe2.filter_state.matched_dir_depth, 2);
}

#[test]
fn state_one_skips_include_patterns_for_files() {
    let mut args = args_with_patterns(vec!["src"], false);
    args.compat = true;
    args.match_dirs = true;
    let opts = TreeOptions::from_args(args).unwrap();
    let f1 = TreeFilter { state: FilterState { matched_dir_depth: 1 }, ignore_dir: None };
    assert!(f1.filter(file_entry("anything.txt"), &opts).is_some());
    let f2 = TreeFilter { state: FilterState { matched_dir_depth: 2 }, ignore_dir: None };
    assert!(f2.filter(file_entry("anything.txt"), &opts).is_none());
}

#[test]
fn directories_only_rejects_files_not_symlinks() {
    let mut opts = TreeOptions::default();
    opts.respect_gitignore = false;
    opts.list_directories_only = true;
    let f = bare_filter();
    assert!(f.filter(file_entry("a.txt"), &opts).is_none());
    let s = Entry::new("link".to_string(), "root/link".to_string(), EntryKind::Symlink);
    assert!(f.filter(s, &opts).is_some());
}

#[test]
fn entry_accessors() {
    let e = Entry::new("a.txt".to_string(), "root/a.txt".to_string(), EntryKind::File);
    assert_eq!(e.file_name().as_str(), "a.txt");
    assert_eq!(e.path().as_str(), "root/a.txt");
    assert_eq!(e.file_type(), EntryKind::File);
    assert!(!e.is_hidden());
    let h = Entry::new(".cfg".to_string(), "root/.cfg".to_string(), EntryKind::File);
    assert!(h.is_hidden());
    assert_eq!(h.into_path(), "root/.cfg");
}

#[test]
fn default_sorter_orders_by_name() {
    let a = Entry::new("a".to_string(), "r/a".to_string(), EntryKind::File);
    let b = Entry::new("b".to_string(), "r/b".to_string(), EntryKind::File);
    let a2 = Entry::new("a".to_string(), "r/a".to_string(), EntryKind::Directory);
    assert_eq!(riptree2::sorter::default_sorter(&a, &b), std::cmp::Ordering::Less);
    assert_eq!(riptree2::sorter::default_sorter(&b, &a), std::cmp::Ordering::Greater);
    assert_eq!(riptree2::sorter::default_sorter(&a, &a2), std::cmp::Ordering::Equal);
}
