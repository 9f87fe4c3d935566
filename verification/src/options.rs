use vstd::prelude::*;

use crate::args::TreeArgs;
use crate::errors::TreeError;
use crate::globs::{
    glob_compiles, glob_match, glob_new, globset_builder_add, globset_builder_build,
    globset_builder_globs, globset_builder_new, globset_builds, globset_globs, set_matches,
};
use crate::text::{spec_split_bars, split_bars};

verus! {

/// The mathematical model of the configuration: every flag as given, and for
/// each glob set the (pattern, case flag) pairs it was compiled from.
pub struct OptModel {
    pub compat: bool,
    pub show_hidden_files: bool,
    pub list_directories_only: bool,
    pub print_full_path_prefix: bool,
    pub max_level: Option<int>,
    pub file_include_globs: Option<Seq<(Seq<char>, bool)>>,
    pub file_exclude_globs: Option<Seq<(Seq<char>, bool)>>,
    pub respect_gitignore: bool,
    pub icons: bool,
    pub match_dirs: bool,
}

/// The resolved configuration, shared read-only across one traversal.
pub struct TreeOptions {
    pub compat: bool,
    pub show_hidden_files: bool,
    pub list_directories_only: bool,
    pub print_full_path_prefix: bool,
    pub max_level: Option<usize>,
    pub file_include_globset: Option<globset::GlobSet>,
    pub file_exclude_globset: Option<globset::GlobSet>,
    pub respect_gitignore: bool,
    pub icons: bool,
    pub match_dirs: bool,
}

impl View for TreeOptions {
    type V = OptModel;

    open spec fn view(&self) -> OptModel {
        OptModel {
            compat: self.compat,
            show_hidden_files: self.show_hidden_files,
            list_directories_only: self.list_directories_only,
            print_full_path_prefix: self.print_full_path_prefix,
            max_level: match self.max_level {
                Some(l) => Some(l as int),
                None => None,
            },
            file_include_globs: match self.file_include_globset {
                Some(gs) => Some(globset_globs(gs)),
                None => None,
            },
            file_exclude_globs: match self.file_exclude_globset {
                Some(gs) => Some(globset_globs(gs)),
                None => None,
            },
            respect_gitignore: self.respect_gitignore,
            icons: self.icons,
            match_dirs: self.match_dirs,
        }
    }
}

impl Default for TreeOptions {
    /// The configuration with everything off but ignore files and icons.
    fn default() -> (r: TreeOptions)
        ensures
            !r.compat,
            !r.show_hidden_files,
            !r.list_directories_only,
            !r.print_full_path_prefix,
            r.max_level is None,
            r.file_include_globset is None,
            r.file_exclude_globset is None,
            r.respect_gitignore,
            r.icons,
            !r.match_dirs,
    {
        TreeOptions {
            compat: false,
            show_hidden_files: false,
            list_directories_only: false,
            print_full_path_prefix: false,
            max_level: None,
            file_include_globset: None,
            file_exclude_globset: None,
            respect_gitignore: true,
            icons: true,
            match_dirs: false,
        }
    }
}

/// Each pattern of the list split on `|` into independent alternatives, in
/// order.
pub open spec fn split_all(patterns: Seq<Seq<char>>) -> Seq<Seq<char>>
    decreases patterns.len(),
{
    if patterns.len() == 0 {
        Seq::<Seq<char>>::empty()
    } else {
        split_all(patterns.drop_last()) + spec_split_bars(patterns.last())
    }
}

/// Each pattern paired with the one shared case flag.
pub open spec fn with_flag(patterns: Seq<Seq<char>>, case_insensitive: bool) -> Seq<
    (Seq<char>, bool),
> {
    patterns.map_values(|p: Seq<char>| (p, case_insensitive))
}

/// Whether every pattern of the list compiles under the shared case flag.
pub open spec fn all_compile(patterns: Seq<Seq<char>>, case_insensitive: bool) -> bool {
    forall|i: int| 0 <= i < patterns.len() ==> glob_compiles(patterns[i], case_insensitive)
}

/// Whether `build_globset` succeeds on this pattern list.
pub open spec fn globset_spec_ok(patterns: Seq<Seq<char>>, case_insensitive: bool) -> bool {
    patterns.len() == 0 || (all_compile(split_all(patterns), case_insensitive) && globset_builds(
        with_flag(split_all(patterns), case_insensitive),
    ))
}

/// Builds one matcher from a list of patterns, after splitting each pattern
/// on `|` into independent alternatives; the one case flag applies to every
/// alternative. Returns `Ok(None)` on an empty list. Fails exactly when an
/// alternative does not compile (the error names the first such alternative)
/// or the compiled set fails to build (the error then carries an empty
/// pattern).
pub fn build_globset(globs: &Vec<String>, case_insensitive: bool) -> (r: Result<
    Option<globset::GlobSet>,
    TreeError,
>)
    ensures
        r is Ok <==> globset_spec_ok(globs.deep_view(), case_insensitive),
        globs@.len() == 0 ==> (r matches Ok(o) && o is None),
        (globs@.len() > 0 && r is Ok) ==> (r matches Ok(o) && o matches Some(gs)
            && globset_globs(gs) == with_flag(split_all(globs.deep_view()), case_insensitive)),
        r matches Err(e) ==> e matches TreeError::BadPattern { pattern } && {
            let pats = split_all(globs.deep_view());
            ||| (exists|k: int|
                0 <= k < pats.len() && !glob_compiles(pats[k], case_insensitive) && pattern@
                    == pats[k] && (forall|j: int|
                    0 <= j < k ==> glob_compiles(pats[j], case_insensitive)))
            ||| (all_compile(pats, case_insensitive) && !globset_builds(
                with_flag(pats, case_insensitive),
            ) && pattern@ =~= Seq::<char>::empty())
        },
{
    if globs.len() == 0 {
        return Ok(None);
    }
    let mut flat: Vec<String> = Vec::new();
    let mut i: usize = 0;
    proof {
        assert(flat.deep_view() =~= split_all(globs.deep_view().take(0)));
    }
    while i < globs.len()
        invariant
            0 <= i <= globs.len(),
            flat.deep_view() == split_all(globs.deep_view().take(i as int)),
        decreases globs.len() - i,
    {
        let mut pieces = split_bars(globs[i].as_str());
        let ghost old_flat = flat.deep_view();
        flat.append(&mut pieces);
        proof {
            assert(globs.deep_view().take(i as int + 1).drop_last() =~= globs.deep_view().take(
                i as int,
            ));
            assert(globs.deep_view().take(i as int + 1).last() == globs.deep_view()[i as int]);
            assert(globs.deep_view()[i as int] == globs[i as int]@);
            assert(flat.deep_view() =~= old_flat + spec_split_bars(globs[i as int]@));
        }
        i = i + 1;
    }
    proof {
        assert(globs.deep_view().take(globs@.len() as int) =~= globs.deep_view());
    }
    let ghost pats = split_all(globs.deep_view());
    let mut builder = globset_builder_new();
    let mut j: usize = 0;
    proof {
        assert(globset_builder_globs(builder) =~= with_flag(pats.take(0), case_insensitive));
    }
    while j < flat.len()
        invariant
            0 <= j <= flat.len(),
            globs@.len() > 0,
            pats == split_all(globs.deep_view()),
            flat.deep_view() == pats,
            globset_builder_globs(builder) == with_flag(
                pats.take(j as int),
                case_insensitive,
            ),
            forall|k: int| 0 <= k < j ==> glob_compiles(pats[k], case_insensitive),
        decreases flat.len() - j,
    {
        let pattern = &flat[j];
        match glob_new(pattern.as_str(), case_insensitive) {
            Ok(g) => {
                globset_builder_add(&mut builder, g);
                proof {
                    assert(pats[j as int] == flat[j as int]@);
                    assert(with_flag(pats.take(j as int), case_insensitive).push(
                        (pattern@, case_insensitive),
                    ) =~= with_flag(pats.take(j as int + 1), case_insensitive));
                }
                j = j + 1;
            },
            Err(_) => {
                proof {
                    assert(pats[j as int] == flat[j as int]@);
                    assert(!glob_compiles(pats[j as int], case_insensitive));
                }
                return Err(
                    TreeError::BadPattern { pattern: String::from_str(pattern.as_str()) },
                );
            },
        }
    }
    proof {
        assert(pats.take(flat@.len() as int) =~= pats);
    }
    match globset_builder_build(&builder) {
        Ok(gs) => {
            proof {
                assert(globs.deep_view().len() > 0);
                assert(split_all(globs.deep_view()).len() >= 0);
            }
            Ok(Some(gs))
        },
        Err(_) => {
            let empty = String::from_str("");
            proof {
                reveal_strlit("");
                assert(empty@ =~= Seq::<char>::empty());
            }
            Err(TreeError::BadPattern { pattern: empty })
        },
    }
}

impl TreeOptions {
    /// Resolves the configuration from the arguments: compiles both pattern
    /// lists, and settles ignore-file respect and icon display, whose default
    /// flips with compatibility mode. Fails exactly when a pattern list does
    /// not compile, naming the offending list's first bad alternative; the
    /// inclusion list is compiled first.
    pub fn from_args(args: TreeArgs) -> (r: Result<TreeOptions, TreeError>)
        ensures
            r is Ok <==> globset_spec_ok(args.file_include_patterns.deep_view(), args.ignore_case)
                && globset_spec_ok(args.file_exclude_patterns.deep_view(), args.ignore_case),
            r matches Ok(o) ==> {
                &&& o.compat == args.compat
                &&& o.show_hidden_files == args.show_hidden_files
                &&& o.list_directories_only == args.list_directories_only
                &&& o.print_full_path_prefix == args.print_full_path_prefix
                &&& o.max_level == args.max_level
                &&& o.match_dirs == args.match_dirs
                &&& o.respect_gitignore == (if args.compat {
                    args.gitignore
                } else {
                    !args.no_gitignore
                })
                &&& o.icons == (if args.compat {
                    args.icons
                } else {
                    !args.no_icons
                })
                &&& (o.file_include_globset is Some <==> args.file_include_patterns@.len() > 0)
                &&& (o.file_exclude_globset is Some <==> args.file_exclude_patterns@.len() > 0)
                &&& (o.file_include_globset matches Some(gs) ==> globset_globs(gs) == with_flag(
                    split_all(args.file_include_patterns.deep_view()),
                    args.ignore_case,
                ))
                &&& (o.file_exclude_globset matches Some(gs) ==> globset_globs(gs) == with_flag(
                    split_all(args.file_exclude_patterns.deep_view()),
                    args.ignore_case,
                ))
            },
    {
        let file_include_globset = match build_globset(
            &args.file_include_patterns,
            args.ignore_case,
        ) {
            Ok(o) => o,
            Err(e) => {
                return Err(e);
            },
        };
        let file_exclude_globset = match build_globset(
            &args.file_exclude_patterns,
            args.ignore_case,
        ) {
            Ok(o) => o,
            Err(e) => {
                return Err(e);
            },
        };
        Ok(
            TreeOptions {
                compat: args.compat,
                show_hidden_files: args.show_hidden_files,
                list_directories_only: args.list_directories_only,
                print_full_path_prefix: args.print_full_path_prefix,
                max_level: args.max_level,
                file_include_globset,
                file_exclude_globset,
                respect_gitignore: if args.compat {
                    args.gitignore
                } else {
                    !args.no_gitignore
                },
                icons: if args.compat {
                    args.icons
                } else {
                    !args.no_icons
                },
                match_dirs: args.match_dirs,
            },
        )
    }
}

/// A set of two alternatives under one shared case flag matches a name
/// exactly when one of the alternatives matches it.
pub proof fn lemma_two_alternatives(
    p1: Seq<char>,
    p2: Seq<char>,
    case_insensitive: bool,
    name: Seq<char>,
)
    ensures
        set_matches(seq![(p1, case_insensitive), (p2, case_insensitive)], name) == (glob_match(
            p1,
            case_insensitive,
            name,
        ) || glob_match(p2, case_insensitive, name)),
{
    let globs = seq![(p1, case_insensitive), (p2, case_insensitive)];
    if glob_match(p1, case_insensitive, name) {
        assert(set_matches(globs, name)) by {
            assert(globs[0] == (p1, case_insensitive));
        }
    } else if glob_match(p2, case_insensitive, name) {
        assert(set_matches(globs, name)) by {
            assert(globs[1] == (p2, case_insensitive));
        }
    }
}

} // verus!
