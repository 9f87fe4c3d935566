use riptree2::args::TreeArgs;
use riptree2::errors::TreeError;
use riptree2::options::{build_globset, TreeOptions};

fn base_args() -> TreeArgs {
    TreeArgs {
        show_hidden_files: false,
        list_directories_only: false,
        print_full_path_prefix: false,
        max_level: None,
        file_include_patterns: vec![],
        file_exclude_patterns: vec![],
        ignore_case: false,
        match_dirs: false,
        compat: false,
        no_gitignore: false,
        gitignore: false,
        icons: false,
        no_icons: false,
        roots: vec![],
    }
}

#[test]
fn empty_pattern_lists_compile_to_nothing() {
    let o = TreeOptions::from_args(base_args()).unwrap();
    assert!(o.file_include_globset.is_none());
    assert!(o.file_exclude_globset.is_none());
}

#[test]
fn gitignore_respect_defaults_flip_with_compat() {
    let o = TreeOptions::from_args(base_args()).unwrap();
    assert!(o.respect_gitignore);
    assert!(o.icons);

    let mut a = base_args();
    a.no_gitignore = true;
    a.no_icons = true;
    let o = TreeOptions::from_args(a).unwrap();
    assert!(!o.respect_gitignore);
    assert!(!o.icons);

    let mut a = base_args();
    a.compat = true;
    let o = TreeOptions::from_args(a).unwrap();
    assert!(!o.respect_gitignore);
    assert!(!o.icons);

    let mut a = base_args();
    a.compat = true;
    a.gitignore = true;
    a.icons = true;
    let o = TreeOptions::from_args(a).unwrap();
    assert!(o.respect_gitignore);
    assert!(o.icons);
}

#[test]
fn flags_carry_over() {
    let mut a = base_args();
    a.show_hidden_files = true;
    a.list_directories_only = true;
    a.print_full_path_prefix = true;
    a.max_level = Some(3);
    a.match_dirs = true;
    let o = TreeOptions::from_args(a).unwrap();
    assert!(o.show_hidden_files);
    assert!(o.list_directories_only);
    assert!(o.print_full_path_prefix);
    assert_eq!(o.max_level, Some(3));
    assert!(o.match_dirs);
}

#[test]
fn first_bad_alternative_is_reported() {
    let mut a = base_args();
    a.file_include_patterns = vec!["ok".to_string(), "[z-a]|x".to_string()];
    match TreeOptions::from_args(a) {
        Err(TreeError::BadPattern { pattern }) => assert_eq!(pattern, "[z-a]"),
        Err(e) => panic!("unexpected error: {e:?}"),
        Ok(_) => panic!("expected a pattern error"),
    }
}

#[test]
fn exclude_list_errors_surface_too() {
    let mut a = base_args();
    a.file_exclude_patterns = vec!["[z-a]".to_string()];
    assert!(matches!(
        TreeOptions::from_args(a),
        Err(TreeError::BadPattern { .. })
    ));
}

#[test]
fn build_globset_empty_list_gives_no_matcher() {
    assert!(build_globset(&vec![], false).unwrap().is_none());
}

#[test]
fn build_globset_splits_alternatives() {
    let gs = build_globset(&vec!["a|b".to_string()], false).unwrap().unwrap();
    assert!(gs.is_match("a"));
    assert!(gs.is_match("b"));
    assert!(!gs.is_match("c"));
}

#[test]
fn default_options_respect_rules_and_icons() {
    let o = TreeOptions::default();
    assert!(!o.compat);
    assert!(!o.show_hidden_files);
    assert!(!o.list_directories_only);
    assert!(!o.print_full_path_prefix);
    assert!(o.max_level.is_none());
    assert!(o.file_include_globset.is_none());
    assert!(o.file_exclude_globset.is_none());
    assert!(o.respect_gitignore);
    assert!(o.icons);
    assert!(!o.match_dirs);
}
