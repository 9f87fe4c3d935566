use vstd::prelude::*;

use crate::errors::TreeError;
use crate::text::strip_dot_slash;

verus! {

// ---------------------------------------------------------------------------
// Declarations of the ignore-crate types used by the rule resolver
// ---------------------------------------------------------------------------

#[verifier::external_type_specification]
#[verifier::external_body]
pub struct ExGitignore(ignore::gitignore::Gitignore);

#[verifier::external_type_specification]
#[verifier::external_body]
pub struct ExGitignoreBuilder(ignore::gitignore::GitignoreBuilder);

#[verifier::external_type_specification]
#[verifier::external_body]
pub struct ExIgnoreError(ignore::Error);

// ---------------------------------------------------------------------------
// Names for what the ignore crate computes
// ---------------------------------------------------------------------------

/// The root directory a compiled `Gitignore` matches relative to.
pub uninterp spec fn gitignore_root(g: ignore::gitignore::Gitignore) -> Seq<char>;

/// The rule lines a compiled `Gitignore` was built from, in the order they
/// were added (comment and blank lines included).
pub uninterp spec fn gitignore_rules(g: ignore::gitignore::Gitignore) -> Seq<Seq<char>>;

/// The root a `GitignoreBuilder` was created with.
pub uninterp spec fn gitignore_builder_root(b: ignore::gitignore::GitignoreBuilder) -> Seq<char>;

/// The rule lines added to a `GitignoreBuilder` so far.
pub uninterp spec fn gitignore_builder_rules(b: ignore::gitignore::GitignoreBuilder) -> Seq<
    Seq<char>,
>;

/// Whether `GitignoreBuilder::add_line` accepts a rule line, for a builder in
/// its default configuration; a function of the line text alone.
pub uninterp spec fn gitignore_line_ok(line: Seq<char>) -> bool;

/// Whether `GitignoreBuilder::build` succeeds on these rule lines, for a
/// builder in its default configuration.
pub uninterp spec fn gitignore_builds(rules: Seq<Seq<char>>) -> bool;

/// The verdict of `Gitignore::matched` on a path: 0 for no match, 1 for an
/// ignore match, 2 for a whitelist match. A function of the matcher's root,
/// its rule lines, the candidate path and the is-directory flag alone, under
/// the build target's path conventions.
pub uninterp spec fn gitignore_verdict(
    root: Seq<char>,
    rules: Seq<Seq<char>>,
    path: Seq<char>,
    is_dir: bool,
) -> int;

/// What one rule-set says about a path.
#[derive(Clone, Copy, Debug, PartialEq, Eq, Structural)]
pub enum RuleVerdict {
    NoMatch,
    Excluded,
    Whitelisted,
}

pub open spec fn verdict_of(v: int) -> RuleVerdict {
    if v == 1 {
        RuleVerdict::Excluded
    } else if v == 2 {
        RuleVerdict::Whitelisted
    } else {
        RuleVerdict::NoMatch
    }
}

/// Whether every rule line compiles, and the compiled set builds; exactly the
/// condition under which this crate's matcher construction succeeds.
pub open spec fn lines_ok(rules: Seq<Seq<char>>) -> bool {
    (forall|i: int| 0 <= i < rules.len() ==> gitignore_line_ok(rules[i])) && gitignore_builds(rules)
}

// ---------------------------------------------------------------------------
// Trusted wrappers around the ignore crate
// ---------------------------------------------------------------------------

/// Relies on `ignore::gitignore::GitignoreBuilder::new`: the fresh builder
/// holds no rules and stores the given root with one leading `./` removed.
#[verifier::external_body]
pub(crate) fn gitignore_builder_new(root: &str) -> (r: ignore::gitignore::GitignoreBuilder)
    ensures
        gitignore_builder_root(r) == strip_dot_slash(root@),
        gitignore_builder_rules(r) == Seq::<Seq<char>>::empty(),
{
    ignore::gitignore::GitignoreBuilder::new(root)
}

/// Relies on `ignore::gitignore::GitignoreBuilder::add_line` on a builder in
/// its default configuration (as `gitignore_builder_new` leaves it): the line
/// is recorded on success, the builder is left unchanged on failure, and
/// success depends on the line text alone.
#[verifier::external_body]
pub(crate) fn gitignore_builder_add_line(
    b: &mut ignore::gitignore::GitignoreBuilder,
    line: &str,
) -> (r: Result<(), ignore::Error>)
    ensures
        r is Ok <==> gitignore_line_ok(line@),
        gitignore_builder_root(*final(b)) == gitignore_builder_root(*old(b)),
        r is Ok ==> gitignore_builder_rules(*final(b)) == gitignore_builder_rules(*old(b)).push(
            line@,
        ),
        r is Err ==> gitignore_builder_rules(*final(b)) == gitignore_builder_rules(*old(b)),
{
    match b.add_line(None, line) {
        Ok(_) => Ok(()),
        Err(e) => Err(e),
    }
}

/// Relies on `ignore::gitignore::GitignoreBuilder::build` on a builder in its
/// default configuration: the compiled matcher keeps the builder's root and
/// rules, and success is a function of the rules.
#[verifier::external_body]
pub(crate) fn gitignore_builder_build(b: &ignore::gitignore::GitignoreBuilder) -> (r: Result<
    ignore::gitignore::Gitignore,
    ignore::Error,
>)
    ensures
        r is Ok <==> gitignore_builds(gitignore_builder_rules(*b)),
        r matches Ok(g) ==> gitignore_root(g) == gitignore_builder_root(*b) && gitignore_rules(g)
            == gitignore_builder_rules(*b),
{
    b.build()
}

/// Relies on `ignore::gitignore::Gitignore::matched`: the verdict on a path
/// is a function of the matcher's root, its rules, the path and the
/// is-directory flag.
#[verifier::external_body]
pub(crate) fn gitignore_matched(
    g: &ignore::gitignore::Gitignore,
    path: &str,
    is_dir: bool,
) -> (r: RuleVerdict)
    ensures
        r == verdict_of(gitignore_verdict(gitignore_root(*g), gitignore_rules(*g), path@, is_dir)),
{
    let m = g.matched(path, is_dir);
    if m.is_whitelist() {
        RuleVerdict::Whitelisted
    } else if m.is_ignore() {
        RuleVerdict::Excluded
    } else {
        RuleVerdict::NoMatch
    }
}

/// Relies on the derived `Clone` of `ignore::gitignore::Gitignore`, which
/// copies the compiled matcher field for field.
#[verifier::external_body]
pub(crate) fn gitignore_clone(g: &ignore::gitignore::Gitignore) -> (r:
    ignore::gitignore::Gitignore)
    ensures
        gitignore_root(r) == gitignore_root(*g),
        gitignore_rules(r) == gitignore_rules(*g),
{
    g.clone()
}

// ---------------------------------------------------------------------------
// Verified construction of one rule-set
// ---------------------------------------------------------------------------

/// Compiles one directory's rule lines into a matcher rooted at `root`.
/// Returns `Err(())` exactly when a line is rejected or the set fails to
/// build.
pub fn compile_gitignore(root: &str, lines: &Vec<String>) -> (r: Result<
    ignore::gitignore::Gitignore,
    (),
>)
    ensures
        r is Ok <==> lines_ok(lines.deep_view()),
        r matches Ok(g) ==> gitignore_root(g) == strip_dot_slash(root@) && gitignore_rules(g)
            == lines.deep_view(),
{
    let mut builder = gitignore_builder_new(root);
    let mut i: usize = 0;
    proof {
        assert(gitignore_builder_rules(builder) =~= lines.deep_view().take(0));
    }
    while i < lines.len()
        invariant
            0 <= i <= lines.len(),
            gitignore_builder_root(builder) == strip_dot_slash(root@),
            gitignore_builder_rules(builder) == lines.deep_view().take(i as int),
            forall|j: int| 0 <= j < i ==> gitignore_line_ok(lines.deep_view()[j]),
        decreases lines.len() - i,
    {
        let line = &lines[i];
        match gitignore_builder_add_line(&mut builder, line.as_str()) {
            Ok(_) => {
                proof {
                    assert(lines.deep_view()[i as int] == lines[i as int]@);
                    assert(lines.deep_view().take(i as int).push(line@) =~= lines.deep_view().take(
                        i as int + 1,
                    ));
                }
                i = i + 1;
            },
            Err(_) => {
                proof {
                    assert(!gitignore_line_ok(lines.deep_view()[i as int]));
                    assert(!lines_ok(lines.deep_view()));
                }
                return Err(());
            },
        }
    }
    proof {
        assert(lines.deep_view().take(lines.len() as int) =~= lines.deep_view());
    }
    match gitignore_builder_build(&builder) {
        Ok(g) => Ok(g),
        Err(_) => {
            proof {
                assert(!gitignore_builds(lines.deep_view()));
            }
            Err(())
        },
    }
}

} // verus!
