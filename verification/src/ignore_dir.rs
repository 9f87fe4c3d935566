use vstd::prelude::*;

use crate::errors::TreeError;
use crate::gitignore::{
    compile_gitignore, gitignore_clone, gitignore_matched, gitignore_root, gitignore_rules,
    gitignore_verdict, lines_ok, verdict_of, RuleVerdict,
};
use crate::text::{last_component, last_component_of, str_eq, strip_dot_slash};

verus! {

/// The mathematical model of one compiled rule-set: the root it matches
/// relative to and the rule lines it was built from.
pub struct GiModel {
    pub root: Seq<char>,
    pub rules: Seq<Seq<char>>,
}

/// The model of a compiled `Gitignore`.
pub open spec fn gi_model(g: ignore::gitignore::Gitignore) -> GiModel {
    GiModel { root: gitignore_root(g), rules: gitignore_rules(g) }
}

/// The rule lines found in one ancestor directory, together with that
/// directory's path. An absent ignore file is an empty list of lines.
pub struct IgnoreSource {
    pub dir: String,
    pub lines: Vec<String>,
}

/// The rule-set an `IgnoreSource` compiles to.
pub open spec fn source_model(s: IgnoreSource) -> GiModel {
    GiModel { root: strip_dot_slash(s.dir@), rules: s.lines.deep_view() }
}

/// Whether an `IgnoreSource` compiles.
pub open spec fn source_ok(s: IgnoreSource) -> bool {
    lines_ok(s.lines.deep_view())
}

/// The verdict of a chain of rule-sets on a path: the verdict of the first
/// rule-set that matches at all (1 excluded, 2 whitelisted), or 0 when none
/// does. Rule-sets stand in priority order, nearest directory first.
pub open spec fn chain_verdict(chain: Seq<GiModel>, path: Seq<char>, is_dir: bool) -> int
    decreases chain.len(),
{
    if chain.len() == 0 {
        0
    } else {
        let v = gitignore_verdict(chain[0].root, chain[0].rules, path, is_dir);
        if v == 1 || v == 2 {
            v
        } else {
            chain_verdict(chain.drop_first(), path, is_dir)
        }
    }
}

/// Whether a chain of rule-sets lets a path through: directories literally
/// named `.git` never pass; otherwise the path passes unless the first
/// matching rule-set excludes it.
pub open spec fn spec_include(chain: Seq<GiModel>, path: Seq<char>, is_dir: bool) -> bool {
    if is_dir && last_component(path) == ".git"@ {
        false
    } else {
        chain_verdict(chain, path, is_dir) != 1
    }
}

/// Whether a rule-set has no opinion on a path.
pub open spec fn no_opinion(m: GiModel, path: Seq<char>, is_dir: bool) -> bool {
    let v = gitignore_verdict(m.root, m.rules, path, is_dir);
    v != 1 && v != 2
}

/// Rule-sets with no opinion on a path can be dropped from the front of a
/// chain without changing its verdict.
proof fn lemma_chain_skip(chain: Seq<GiModel>, path: Seq<char>, is_dir: bool, i: int)
    requires
        0 <= i <= chain.len(),
        forall|j: int| 0 <= j < i ==> no_opinion(chain[j], path, is_dir),
    ensures
        chain_verdict(chain, path, is_dir) == chain_verdict(chain.skip(i), path, is_dir),
    decreases i,
{
    if i == 0 {
        assert(chain.skip(0) =~= chain);
    } else {
        assert(chain.drop_first() =~= chain.skip(1));
        lemma_chain_skip(chain.skip(1), path, is_dir, i - 1);
        assert(chain.skip(1).skip(i - 1) =~= chain.skip(i));
    }
}

/// A whitelist match at the nearest rule-set that matches at all wins over
/// any exclusion that a more distant rule-set would impose: if the rule-sets
/// before position `k` have no opinion on the path and the rule-set at `k`
/// whitelists it, the chain includes the path, whatever stands beyond `k`.
/// Directories named `.git` are excluded before any rule-set is consulted,
/// so they are left out here.
pub proof fn lemma_nearest_whitelist_wins(
    chain: Seq<GiModel>,
    path: Seq<char>,
    is_dir: bool,
    k: int,
)
    requires
        0 <= k < chain.len(),
        forall|j: int| 0 <= j < k ==> no_opinion(chain[j], path, is_dir),
        gitignore_verdict(chain[k].root, chain[k].rules, path, is_dir) == 2,
        !(is_dir && last_component(path) == ".git"@),
    ensures
        spec_include(chain, path, is_dir),
{
    lemma_chain_skip(chain, path, is_dir, k);
    assert(chain.skip(k)[0] == chain[k]);
}

/// A node of the ancestor-chained ignore resolver. The rule-sets stand
/// flattened in priority order: this directory's own rule-set first, then
/// each ancestor's from nearest to farthest, then the global rule-set.
/// Scanning the flattened list front to back gives the same verdict as
/// consulting a linked chain node by node.
pub struct IgnoreDir {
    pub gitignores: Vec<ignore::gitignore::Gitignore>,
}

impl View for IgnoreDir {
    type V = Seq<GiModel>;

    open spec fn view(&self) -> Seq<GiModel> {
        self.gitignores@.map_values(|g: ignore::gitignore::Gitignore| gi_model(g))
    }
}

/// The chain a traversal root starts with: the ancestors' rule-sets in
/// leaf-to-root order (the list arrives in root-to-leaf order and is
/// reversed), then the global rule-set, if any.
pub open spec fn root_chain(
    global: Option<ignore::gitignore::Gitignore>,
    ancestors: Seq<IgnoreSource>,
) -> Seq<GiModel> {
    Seq::new(ancestors.len(), |i: int| source_model(ancestors[ancestors.len() - 1 - i])) + (
    match global {
        Some(g) => seq![gi_model(g)],
        None => Seq::<GiModel>::empty(),
    })
}

impl IgnoreDir {
    /// Builds the resolver for a traversal root. `ancestors` holds, in
    /// root-to-leaf order, the ignore-rule lines of every directory from the
    /// filesystem root down to the traversal root; `global` is the system-wide
    /// rule-set, already compiled. Fails on the first directory whose rules
    /// do not compile.
    pub fn new(
        global: Option<ignore::gitignore::Gitignore>,
        ancestors: &Vec<IgnoreSource>,
    ) -> (r: Result<IgnoreDir, TreeError>)
        ensures
            r is Ok <==> (forall|i: int| 0 <= i < ancestors.len() ==> source_ok(ancestors@[i])),
            r matches Ok(d) ==> d@ == root_chain(global, ancestors@),
            r matches Err(e) ==> (e matches TreeError::IgnoreFile { path } && exists|i: int|
                0 <= i < ancestors.len() && !source_ok(ancestors@[i]) && path@ == ancestors@[i].dir@
                    && (forall|j: int| 0 <= j < i ==> source_ok(ancestors@[j]))),
    {
        let mut compiled: Vec<ignore::gitignore::Gitignore> = Vec::new();
        let mut i: usize = 0;
        while i < ancestors.len()
            invariant
                0 <= i <= ancestors.len(),
                compiled@.len() == i,
                forall|j: int| 0 <= j < i ==> source_ok(ancestors@[j]),
                forall|j: int| 0 <= j < i ==> gi_model(compiled@[j]) == source_model(ancestors@[j]),
            decreases ancestors.len() - i,
        {
            let src = &ancestors[i];
            match compile_gitignore(src.dir.as_str(), &src.lines) {
                Ok(g) => {
                    compiled.push(g);
                    i = i + 1;
                },
                Err(_) => {
                    return Err(TreeError::IgnoreFile { path: String::from_str(src.dir.as_str()) });
                },
            }
        }
        let ghost compiled_all = compiled@;
        let mut gitignores: Vec<ignore::gitignore::Gitignore> = Vec::new();
        loop
            invariant
                compiled@ == compiled_all.take(compiled@.len() as int),
                compiled@.len() + gitignores@.len() == compiled_all.len(),
                forall|k: int|
                    0 <= k < gitignores@.len() ==> gitignores@[k] == compiled_all[compiled_all.len()
                        - 1 - k],
            ensures
                compiled@.len() == 0,
                gitignores@.len() == compiled_all.len(),
                forall|k: int|
                    0 <= k < gitignores@.len() ==> gitignores@[k] == compiled_all[compiled_all.len()
                        - 1 - k],
            decreases compiled@.len(),
        {
            proof {
                if compiled@.len() > 0 {
                    assert(compiled@.last() == compiled_all[compiled@.len() - 1]);
                }
            }
            match compiled.pop() {
                Some(g) => {
                    gitignores.push(g);
                    proof {
                        assert(compiled@ =~= compiled_all.take(compiled@.len() as int));
                    }
                },
                None => {
                    break;
                },
            }
        }
        proof {
            assert(compiled@.len() == 0);
            assert(gitignores@.len() == compiled_all.len());
            assert(compiled_all.len() == ancestors@.len());
        }
        match global {
            Some(g) => {
                gitignores.push(g);
            },
            None => {},
        }
        let d = IgnoreDir { gitignores };
        proof {
            let n = ancestors@.len();
            let rc = root_chain(global, ancestors@);
            assert(rc.len() == n + (match global {
                Some(g) => 1int,
                None => 0int,
            }));
            assert(d@.len() == d.gitignores@.len());
            assert(d@.len() == rc.len());
            assert forall|k: int| 0 <= k < d@.len() implies d@[k] == rc[k] by {
                assert(d@[k] == gi_model(d.gitignores@[k]));
                if k < n {
                    assert(d.gitignores@[k] == compiled_all[n - 1 - k]);
                    assert(gi_model(compiled_all[n - 1 - k]) == source_model(
                        ancestors@[n - 1 - k],
                    ));
                }
            }
            assert(d@ =~= rc);
        }
        Ok(d)
    }

    /// Descends into a child directory: the child's own rule lines (if it has
    /// an ignore file) take the highest priority, ahead of everything this
    /// node resolves. Fails exactly when those lines do not compile.
    pub fn enter_dir(&self, dir: &str, lines: &Option<Vec<String>>) -> (r: Result<
        IgnoreDir,
        TreeError,
    >)
        ensures
            r is Ok <==> (match lines {
                Some(ls) => lines_ok(ls.deep_view()),
                None => true,
            }),
            r matches Ok(d) ==> d@ == (match lines {
                Some(ls) => seq![
                    GiModel { root: strip_dot_slash(dir@), rules: ls.deep_view() },
                ],
                None => Seq::<GiModel>::empty(),
            }) + self@,
            r matches Err(e) ==> e matches TreeError::IgnoreFile { path } && path@ == dir@,
    {
        let mut gitignores: Vec<ignore::gitignore::Gitignore> = Vec::new();
        match lines {
            Some(ls) => {
                match compile_gitignore(dir, ls) {
                    Ok(g) => {
                        gitignores.push(g);
                    },
                    Err(_) => {
                        return Err(TreeError::IgnoreFile { path: String::from_str(dir) });
                    },
                }
            },
            None => {},
        }
        let ghost own = gitignores@.map_values(|g: ignore::gitignore::Gitignore| gi_model(g));
        let mut i: usize = 0;
        while i < self.gitignores.len()
            invariant
                0 <= i <= self.gitignores.len(),
                gitignores@.len() == own.len() + i,
                gitignores@.map_values(|g: ignore::gitignore::Gitignore| gi_model(g)) =~= own
                    + self@.take(i as int),
            decreases self.gitignores.len() - i,
        {
            let g = gitignore_clone(&self.gitignores[i]);
            gitignores.push(g);
            proof {
                assert(own + self@.take(i as int + 1) =~= (own + self@.take(i as int)).push(
                    gi_model(self.gitignores@[i as int]),
                ));
            }
            i = i + 1;
        }
        let d = IgnoreDir { gitignores };
        proof {
            assert(self@.take(self.gitignores@.len() as int) =~= self@);
            assert(d@ =~= (match lines {
                Some(ls) => seq![GiModel { root: strip_dot_slash(dir@), rules: ls.deep_view() }],
                None => Seq::<GiModel>::empty(),
            }) + self@);
        }
        Ok(d)
    }

    /// Whether the chain lets `path` through. Directories literally named
    /// `.git` are excluded before any rule-set is consulted; otherwise the
    /// nearest rule-set that matches decides, and a path no rule-set matches
    /// is included.
    pub fn included(&self, path: &str, is_dir: bool) -> (r: bool)
        ensures
            r == spec_include(self@, path@, is_dir),
    {
        if is_dir {
            let name = last_component_of(path);
            if str_eq(name, ".git") {
                return false;
            }
        }
        let mut i: usize = 0;
        while i < self.gitignores.len()
            invariant
                0 <= i <= self.gitignores.len(),
                !(is_dir && last_component(path@) == ".git"@),
                forall|j: int| 0 <= j < i ==> no_opinion(self@[j], path@, is_dir),
            decreases self.gitignores.len() - i,
        {
            let g = &self.gitignores[i];
            proof {
                lemma_chain_skip(self@, path@, is_dir, i as int);
                assert(self@.skip(i as int)[0] == self@[i as int]);
                assert(self@[i as int] == gi_model(self.gitignores@[i as int]));
            }
            let ghost v = gitignore_verdict(self@[i as int].root, self@[i as int].rules, path@, is_dir);
            match gitignore_matched(g, path, is_dir) {
                RuleVerdict::Whitelisted => {
                    proof {
                        assert(verdict_of(v) == RuleVerdict::Whitelisted);
                        assert(v == 2);
                        assert(chain_verdict(self@.skip(i as int), path@, is_dir) == 2);
                        assert(chain_verdict(self@, path@, is_dir) == 2);
                        assert(!(is_dir && last_component(path@) == ".git"@));
                    }
                    return true;
                },
                RuleVerdict::Excluded => {
                    proof {
                        assert(v == 1);
                        assert(chain_verdict(self@, path@, is_dir) == 1);
                    }
                    return false;
                },
                RuleVerdict::NoMatch => {
                    proof {
                        assert(no_opinion(self@[i as int], path@, is_dir));
                    }
                    i = i + 1;
                },
            }
        }
        proof {
            lemma_chain_skip(self@, path@, is_dir, self@.len() as int);
        }
        true
    }
}

} // verus!
