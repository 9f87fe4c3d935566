use riptree2::errors::TreeError;
use riptree2::ignore_dir::{IgnoreDir, IgnoreSource};

fn source(dir: &str, lines: Vec<&str>) -> IgnoreSource {
    IgnoreSource {
        dir: dir.to_string(),
        lines: lines.into_iter().map(|s| s.to_string()).collect(),
    }
}

#[test]
fn nearest_whitelist_wins_over_distant_ignore() {
    let root = IgnoreDir::new(None, &vec![source("", vec!["*.log"])]).unwrap();
    let sub = root
        .enter_dir("sub", &Some(vec!["!keep.log".to_string()]))
        .unwrap();
    assert!(sub.included("sub/keep.log", false));
    assert!(!sub.included("sub/other.log", false));
}

#[test]
fn nearest_ignore_wins_over_distant_whitelist() {
    let root = IgnoreDir::new(None, &vec![source("", vec!["!special.log"])]).unwrap();
    let sub = root
        .enter_dir("sub", &Some(vec!["*.log".to_string()]))
        .unwrap();
    assert!(!sub.included("sub/special.log", false));
}

#[test]
fn unmatched_paths_are_included() {
    let root = IgnoreDir::new(None, &vec![source("", vec!["*.log"])]).unwrap();
    assert!(root.included("readme.md", false));
}

#[test]
fn comments_and_blank_lines_match_nothing() {
    let root = IgnoreDir::new(
        None,
        &vec![source("", vec!["# *.md", "", "   "])],
    )
    .unwrap();
    assert!(root.included("readme.md", false));
}

#[test]
fn dot_git_directories_always_excluded() {
    let root = IgnoreDir::new(None, &vec![source("", vec!["!.git"])]).unwrap();
    assert!(!root.included("a/.git", true));
    // A file named .git is not the unconditional case; the rules decide.
    assert!(root.included("a/.git", false));
}

#[test]
fn global_rules_have_lowest_priority() {
    let mut builder = ignore::gitignore::GitignoreBuilder::new("");
    builder.add_line(None, "*.tmp").unwrap();
    builder.add_line(None, "*.bak").unwrap();
    let global = builder.build().unwrap();
    let root = IgnoreDir::new(Some(global), &vec![source("", vec!["!x.tmp"])]).unwrap();
    assert!(!root.included("y.tmp", false));
    assert!(root.included("x.tmp", false));
    assert!(!root.included("z.bak", false));
}

#[test]
fn bad_rule_line_fails_construction() {
    let r = IgnoreDir::new(None, &vec![source("somedir", vec!["[z-a]"])]);
    match r {
        Err(TreeError::IgnoreFile { path }) => assert_eq!(path, "somedir"),
        Err(e) => panic!("unexpected error: {e:?}"),
        Ok(_) => panic!("expected an error"),
    }
}

#[test]
fn bad_rule_line_fails_entering() {
    let root = IgnoreDir::new(None, &vec![]).unwrap();
    let r = root.enter_dir("sub", &Some(vec!["[z-a]".to_string()]));
    assert!(matches!(r, Err(TreeError::IgnoreFile { .. })));
}

#[test]
fn entering_without_rule_file_keeps_parent_rules() {
    let root = IgnoreDir::new(None, &vec![source("", vec!["*.log"])]).unwrap();
    let sub = root.enter_dir("sub", &None).unwrap();
    assert!(!sub.included("sub/a.log", false));
    assert!(sub.included("sub/a.txt", false));
}
