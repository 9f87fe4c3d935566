use vstd::prelude::*;

verus! {

// ---------------------------------------------------------------------------
// Declarations of the globset types used by the configuration
// ---------------------------------------------------------------------------

#[verifier::external_type_specification]
#[verifier::external_body]
pub struct ExGlob(globset::Glob);

#[verifier::external_type_specification]
#[verifier::external_body]
pub struct ExGlobSet(globset::GlobSet);

#[verifier::external_type_specification]
#[verifier::external_body]
pub struct ExGlobSetBuilder(globset::GlobSetBuilder);

#[verifier::external_type_specification]
#[verifier::external_body]
pub struct ExGlobsetError(globset::Error);

// ---------------------------------------------------------------------------
// Names for what the globset crate computes
// ---------------------------------------------------------------------------

/// The pattern text a compiled `globset::Glob` was built from.
pub uninterp spec fn glob_pattern(g: globset::Glob) -> Seq<char>;

/// The case-insensitivity flag a compiled `globset::Glob` was built with.
pub uninterp spec fn glob_case_insensitive(g: globset::Glob) -> bool;

/// Whether `globset::GlobBuilder::build` accepts the pattern; a function of
/// the pattern text and the case flag alone.
pub uninterp spec fn glob_compiles(pattern: Seq<char>, case_insensitive: bool) -> bool;

/// Whether one compiled glob matches a candidate name; a function of the
/// pattern text, the case flag and the name alone, under the build target's
/// path conventions.
pub uninterp spec fn glob_match(pattern: Seq<char>, case_insensitive: bool, name: Seq<char>) -> bool;

/// The (pattern, case flag) pairs of the globs held by a `globset::GlobSet`.
pub uninterp spec fn globset_globs(s: globset::GlobSet) -> Seq<(Seq<char>, bool)>;

/// The (pattern, case flag) pairs added to a `globset::GlobSetBuilder` so far.
pub uninterp spec fn globset_builder_globs(b: globset::GlobSetBuilder) -> Seq<(Seq<char>, bool)>;

/// Whether `globset::GlobSetBuilder::build` succeeds on this list of globs.
pub uninterp spec fn globset_builds(globs: Seq<(Seq<char>, bool)>) -> bool;

/// A glob set matches a name exactly when one of its globs does; this is the
/// documented behaviour of `globset::GlobSet::is_match`.
pub open spec fn set_matches(globs: Seq<(Seq<char>, bool)>, name: Seq<char>) -> bool {
    exists|i: int| 0 <= i < globs.len() && glob_match(globs[i].0, globs[i].1, name)
}

// ---------------------------------------------------------------------------
// Trusted wrappers around the globset crate
// ---------------------------------------------------------------------------

/// Relies on `globset::GlobBuilder`: `new(pattern).case_insensitive(ci).build()`
/// compiles the single pattern; success and the compiled glob depend on the
/// pattern text and the flag alone.
#[verifier::external_body]
pub(crate) fn glob_new(pattern: &str, case_insensitive: bool) -> (r: Result<
    globset::Glob,
    globset::Error,
>)
    ensures
        r is Ok <==> glob_compiles(pattern@, case_insensitive),
        r matches Ok(g) ==> glob_pattern(g) == pattern@ && glob_case_insensitive(g)
            == case_insensitive,
{
    globset::GlobBuilder::new(pattern).case_insensitive(case_insensitive).build()
}

/// Relies on `globset::GlobSetBuilder::new`: a fresh builder holds no globs.
#[verifier::external_body]
pub(crate) fn globset_builder_new() -> (r: globset::GlobSetBuilder)
    ensures
        globset_builder_globs(r) == Seq::<(Seq<char>, bool)>::empty(),
{
    globset::GlobSetBuilder::new()
}

/// Relies on `globset::GlobSetBuilder::add`: the glob is appended to the set
/// under construction.
#[verifier::external_body]
pub(crate) fn globset_builder_add(b: &mut globset::GlobSetBuilder, g: globset::Glob)
    ensures
        globset_builder_globs(*final(b)) == globset_builder_globs(*old(b)).push(
            (glob_pattern(g), glob_case_insensitive(g)),
        ),
{
    b.add(g);
}

/// Relies on `globset::GlobSetBuilder::build`: on success the produced set
/// holds exactly the globs added so far; success is a function of those globs.
#[verifier::external_body]
pub(crate) fn globset_builder_build(b: &globset::GlobSetBuilder) -> (r: Result<
    globset::GlobSet,
    globset::Error,
>)
    ensures
        r is Ok <==> globset_builds(globset_builder_globs(*b)),
        r matches Ok(s) ==> globset_globs(s) == globset_builder_globs(*b),
{
    b.build()
}

/// Relies on `globset::GlobSet::is_match`: "Returns true if any glob in this
/// set matches the path given."
#[verifier::external_body]
pub(crate) fn globset_is_match(s: &globset::GlobSet, name: &str) -> (r: bool)
    ensures
        r == (exists|i: int|
            0 <= i < globset_globs(*s).len() && glob_match(
                globset_globs(*s)[i].0,
                globset_globs(*s)[i].1,
                name@,
            )),
        r == set_matches(globset_globs(*s), name@),
{
    s.is_match(name)
}

} // verus!
