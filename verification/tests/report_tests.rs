use riptree2::options::TreeOptions;
use riptree2::stats::{DefaultTreeStats, NoopTreeStats, TreeStats as TreeStatsTrait};
use riptree2::tree::TreeStats;

fn plain() -> TreeOptions {
    let mut o = TreeOptions::default();
    o.respect_gitignore = false;
    o
}

fn dirs_only() -> TreeOptions {
    let mut o = plain();
    o.list_directories_only = true;
    o
}

#[test]
fn report_singular_and_plural_forms() {
    let o = plain();
    assert_eq!(TreeStats { dirs: 1, files: 1 }.write(&o), "1 directory, 1 file");
    assert_eq!(TreeStats { dirs: 3, files: 1 }.write(&o), "3 directories, 1 file");
    assert_eq!(TreeStats { dirs: 1, files: 2 }.write(&o), "1 directory, 2 files");
    assert_eq!(TreeStats { dirs: 4, files: 0 }.write(&o), "4 directories, 0 files");
    assert_eq!(TreeStats { dirs: 12, files: 345 }.write(&o), "12 directories, 345 files");
    assert_eq!(TreeStats { dirs: 0, files: 0 }.write(&o), "0 directories, 0 files");
}

#[test]
fn report_directories_only_quirk() {
    let o = dirs_only();
    // One directory reports a file even in directories-only mode.
    assert_eq!(TreeStats { dirs: 1, files: 5 }.write(&o), "1 directory, 1 file");
    assert_eq!(TreeStats { dirs: 3, files: 5 }.write(&o), "3 directories");
    assert_eq!(TreeStats { dirs: 0, files: 0 }.write(&o), "0 directories");
}

#[test]
fn fresh_counters_are_zero() {
    let s = TreeStats::new();
    assert_eq!(s.dirs(), 0);
    assert_eq!(s.files(), 0);
}

#[test]
fn default_tree_stats_count() {
    let mut s = DefaultTreeStats::new();
    s.count_dir();
    s.count_dir();
    s.count_file();
    assert_eq!(s.dirs(), 2);
    assert_eq!(s.files(), 1);
    assert_eq!(s.write(&plain()), "2 directories, 1 file");
}

#[test]
fn noop_tree_stats_count_nothing() {
    let mut s = NoopTreeStats;
    s.count_dir();
    s.count_file();
}
