use vstd::prelude::*;

use crate::config::{Config, Rule};
use crate::path::{
    is_ancestor_or_self, is_proper_ancestor, lexical_normal, lexical_state, normalized,
    parts_view, FsPath, PartView, PathPart,
};

verus! {

/// The values of a list of paths.
pub open spec fn paths_view(s: Seq<FsPath>) -> Seq<Seq<PartView>> {
    s.map_values(|p: FsPath| p@)
}

/// Each path of `s` in normal form, resolved against `base`.
pub open spec fn normalized_all(base: Seq<PartView>, s: Seq<Seq<PartView>>) -> Seq<Seq<PartView>> {
    s.map_values(|p: Seq<PartView>| normalized(base, p))
}

/// The destinations of the rules that have an action, disabled rules included.
pub open spec fn rule_destinations(rules: Seq<Rule>) -> Seq<Seq<PartView>>
    decreases rules.len(),
{
    if rules.len() == 0 {
        Seq::empty()
    } else {
        let prev = rule_destinations(rules.drop_last());
        match rules.last().action {
            Some(a) => prev.push(a.to@),
            None => prev,
        }
    }
}

/// The configured directories that are never scanned: the quarantine
/// directory, the state directory, and every rule's destination.
pub open spec fn raw_excludes(c: Config) -> Seq<Seq<PartView>> {
    seq![c.paths.quarantine@, c.paths.state_dir@] + rule_destinations(c.rules@)
}

/// The raw include and exclude roots of a configuration, each resolved
/// against a base directory and lexically normalized.
pub struct ConfigPolicy {
    pub include_roots: Vec<FsPath>,
    pub exclude_roots: Vec<FsPath>,
}

impl ConfigPolicy {
    /// Derives the raw roots from `config`, resolving relative paths under `base_dir`.
    pub fn new(config: &Config, base_dir: &FsPath) -> (r: ConfigPolicy)
        ensures
            paths_view(r.include_roots@) == normalized_all(base_dir@, paths_view(config.paths.roots@)),
            paths_view(r.exclude_roots@) == normalized_all(base_dir@, raw_excludes(*config)),
    {
        let mut excludes: Vec<FsPath> = Vec::new();
        excludes.push(config.paths.quarantine.copy());
        excludes.push(config.paths.state_dir.copy());
        assert(paths_view(excludes@) =~= seq![config.paths.quarantine@, config.paths.state_dir@]);
        let mut i: usize = 0;
        while i < config.rules.len()
            invariant
                i <= config.rules.len(),
                paths_view(excludes@) == seq![config.paths.quarantine@, config.paths.state_dir@]
                    + rule_destinations(config.rules@.subrange(0, i as int)),
            decreases config.rules.len() - i,
        {
            let ghost prev = excludes@;
            assert(config.rules@.subrange(0, i + 1).drop_last() =~= config.rules@.subrange(0, i as int));
            match &config.rules[i].action {
                Some(action) => {
                    excludes.push(action.to.copy());
                    assert(paths_view(excludes@) =~= paths_view(prev).push(action.to@));
                },
                None => {},
            }
            i += 1;
        }
        assert(config.rules@.subrange(0, i as int) =~= config.rules@);
        ConfigPolicy {
            include_roots: Self::normalize_paths(&config.paths.roots, base_dir),
            exclude_roots: Self::normalize_paths(&excludes, base_dir),
        }
    }

    /// The lexical normal form of `path`; symlinks are not consulted.
    pub fn lexical_normalize(path: &FsPath) -> (r: FsPath)
        ensures
            r@ == lexical_normal(path@),
    {
        let mut anchor: Vec<PathPart> = Vec::new();
        let mut names: Vec<PathPart> = Vec::new();
        let mut i: usize = 0;
        while i < path.parts.len()
            invariant
                i <= path.parts.len(),
                (parts_view(anchor@), parts_view(names@)) == lexical_state(
                    path@.subrange(0, i as int),
                ),
            decreases path.parts.len() - i,
        {
            let ghost a0 = anchor@;
            let ghost n0 = names@;
            let ghost sub = path@.subrange(0, i + 1);
            assert(sub.drop_last() =~= path@.subrange(0, i as int));
            assert(sub.last() == path.parts@[i as int]@);
            match &path.parts[i] {
                PathPart::Prefix(_) | PathPart::Root => {
                    anchor.push(path.parts[i].copy());
                    assert(parts_view(anchor@) =~= parts_view(a0).push(sub.last()));
                },
                PathPart::Cur => {},
                PathPart::Parent => {
                    if names.len() > 0 {
                        names.pop();
                        assert(parts_view(names@) =~= parts_view(n0).drop_last());
                    }
                },
                PathPart::Normal(_) => {
                    names.push(path.parts[i].copy());
                    assert(parts_view(names@) =~= parts_view(n0).push(sub.last()));
                },
            }
            i += 1;
        }
        assert(path@.subrange(0, i as int) =~= path@);
        let ghost a1 = anchor@;
        let mut j: usize = 0;
        while j < names.len()
            invariant
                j <= names.len(),
                parts_view(anchor@) == parts_view(a1) + parts_view(names@).subrange(0, j as int),
            decreases names.len() - j,
        {
            let ghost a2 = anchor@;
            anchor.push(names[j].copy());
            j += 1;
            assert(parts_view(anchor@) =~= parts_view(a2).push(names@[j - 1]@));
            assert(parts_view(anchor@) =~= parts_view(a1) + parts_view(names@).subrange(0, j as int));
        }
        assert(parts_view(names@).subrange(0, j as int) =~= parts_view(names@));
        FsPath { parts: anchor }
    }

    /// Appends the normal form of `path` to `absolute_paths`.
    pub fn normalize(path: &FsPath, absolute_paths: &mut Vec<FsPath>)
        ensures
            final(absolute_paths)@.len() == old(absolute_paths)@.len() + 1,
            paths_view(final(absolute_paths)@) == paths_view(old(absolute_paths)@).push(
                lexical_normal(path@),
            ),
    {
        let n = Self::lexical_normalize(path);
        absolute_paths.push(n);
        assert(paths_view(absolute_paths@) =~= paths_view(old(absolute_paths)@).push(
            lexical_normal(path@),
        ));
    }

    /// Each of `dir` resolved under `base_dir` and normalized, in order.
    pub fn normalize_paths(dir: &Vec<FsPath>, base_dir: &FsPath) -> (r: Vec<FsPath>)
        ensures
            paths_view(r@) == normalized_all(base_dir@, paths_view(dir@)),
    {
        let mut absolute_paths: Vec<FsPath> = Vec::new();
        let mut i: usize = 0;
        while i < dir.len()
            invariant
                i <= dir.len(),
                paths_view(absolute_paths@) == normalized_all(
                    base_dir@,
                    paths_view(dir@.subrange(0, i as int)),
                ),
            decreases dir.len() - i,
        {
            let ghost prev = absolute_paths@;
            if dir[i].is_absolute() {
                Self::normalize(&dir[i], &mut absolute_paths);
            } else {
                let joined = base_dir.join(&dir[i]);
                Self::normalize(&joined, &mut absolute_paths);
            }
            i += 1;
            assert(paths_view(absolute_paths@) =~= normalized_all(
                base_dir@,
                paths_view(dir@.subrange(0, i as int)),
            ));
        }
        assert(dir@.subrange(0, i as int) =~= dir@);
        absolute_paths
    }
}

} // verus!

verus! {

/// The root at `j` adds nothing: another root is a strict ancestor of it, or
/// an equal root stands earlier in the list.
pub open spec fn subsumed(raw: Seq<Seq<PartView>>, j: int) -> bool {
    exists|i: int|
        0 <= i < raw.len() && (is_proper_ancestor(raw[i], raw[j]) || (i < j && raw[i] == raw[j]))
}

/// The roots among the first `n` of `raw` that have depth `d` and are not
/// subsumed, in list order.
pub open spec fn kept_at_depth(raw: Seq<Seq<PartView>>, d: nat, n: int) -> Seq<Seq<PartView>>
    decreases n,
{
    if n <= 0 {
        Seq::empty()
    } else {
        let prev = kept_at_depth(raw, d, n - 1);
        if raw[n - 1].len() == d && !subsumed(raw, n - 1) {
            prev.push(raw[n - 1])
        } else {
            prev
        }
    }
}

/// The kept roots of every depth below `d`: shallower roots first, and
/// roots of equal depth in list order.
pub open spec fn kept_below(raw: Seq<Seq<PartView>>, d: nat) -> Seq<Seq<PartView>>
    decreases d,
{
    if d == 0 {
        Seq::empty()
    } else {
        kept_below(raw, (d - 1) as nat) + kept_at_depth(raw, (d - 1) as nat, raw.len() as int)
    }
}

/// The greatest depth in `raw` (zero when it is empty).
pub open spec fn max_depth(raw: Seq<Seq<PartView>>) -> nat
    decreases raw.len(),
{
    if raw.len() == 0 {
        0
    } else {
        let m = max_depth(raw.drop_last());
        if raw.last().len() > m {
            raw.last().len()
        } else {
            m
        }
    }
}

/// The minimal covering set of `raw`: each root that no other root subsumes,
/// sorted by ascending depth, ties kept in list order.
pub open spec fn minimal_roots(raw: Seq<Seq<PartView>>) -> Seq<Seq<PartView>> {
    kept_below(raw, max_depth(raw) + 1)
}

/// Some path of `set` is `p` or one of its ancestors.
pub open spec fn covered_by(set: Seq<Seq<PartView>>, p: Seq<PartView>) -> bool {
    exists|i: int| 0 <= i < set.len() && is_ancestor_or_self(set[i], p)
}

/// The paths of `ex` that lie within `inc`, in order.
pub open spec fn scoped(ex: Seq<Seq<PartView>>, inc: Seq<Seq<PartView>>) -> Seq<Seq<PartView>>
    decreases ex.len(),
{
    if ex.len() == 0 {
        Seq::empty()
    } else {
        let prev = scoped(ex.drop_last(), inc);
        if covered_by(inc, ex.last()) {
            prev.push(ex.last())
        } else {
            prev
        }
    }
}

/// The effective include roots of raw include roots `inc`.
pub open spec fn effective_includes_of(inc: Seq<Seq<PartView>>) -> Seq<Seq<PartView>> {
    minimal_roots(inc)
}

/// The effective exclude roots: the raw excludes that lie within an
/// effective include root, made minimal in the same way.
pub open spec fn effective_excludes_of(inc: Seq<Seq<PartView>>, ex: Seq<Seq<PartView>>) -> Seq<
    Seq<PartView>,
> {
    minimal_roots(scoped(ex, minimal_roots(inc)))
}

/// Whether some path of `set` is `path` or one of its ancestors.
pub fn covers(set: &Vec<FsPath>, path: &FsPath) -> (r: bool)
    ensures
        r == covered_by(paths_view(set@), path@),
{
    let mut i: usize = 0;
    while i < set.len()
        invariant
            i <= set.len(),
            forall|k: int| 0 <= k < i ==> !is_ancestor_or_self(set@[k]@, path@),
        decreases set.len() - i,
    {
        if set[i].is_ancestor_or_self_of(path) {
            assert(paths_view(set@)[i as int] == set@[i as int]@);
            return true;
        }
        i += 1;
    }
    assert forall|k: int| 0 <= k < paths_view(set@).len() implies !is_ancestor_or_self(
        paths_view(set@)[k],
        path@,
    ) by {
        assert(paths_view(set@)[k] == set@[k]@);
    }
    false
}

/// Whether the root at `j` is subsumed by another root of `raw`.
fn subsumed_at(raw: &Vec<FsPath>, j: usize) -> (r: bool)
    requires
        j < raw.len(),
    ensures
        r == subsumed(paths_view(raw@), j as int),
{
    let ghost v = paths_view(raw@);
    let mut i: usize = 0;
    while i < raw.len()
        invariant
            i <= raw.len(),
            j < raw.len(),
            v == paths_view(raw@),
            forall|k: int|
                0 <= k < i ==> !(is_proper_ancestor(v[k], v[j as int]) || (k < j && v[k] == v[j as int])),
        decreases raw.len() - i,
    {
        assert(v[i as int] == raw@[i as int]@ && v[j as int] == raw@[j as int]@);
        let anc = raw[i].depth() < raw[j].depth() && raw[i].is_ancestor_or_self_of(&raw[j]);
        let dup = i < j && raw[i].same_as(&raw[j]);
        if anc || dup {
            return true;
        }
        i += 1;
    }
    false
}

/// The greatest depth among `raw`.
fn max_depth_exec(raw: &Vec<FsPath>) -> (r: usize)
    ensures
        r == max_depth(paths_view(raw@)),
{
    let mut m: usize = 0;
    let mut i: usize = 0;
    while i < raw.len()
        invariant
            i <= raw.len(),
            m == max_depth(paths_view(raw@).subrange(0, i as int)),
        decreases raw.len() - i,
    {
        let ghost sub = paths_view(raw@).subrange(0, i + 1);
        assert(sub.drop_last() =~= paths_view(raw@).subrange(0, i as int));
        assert(sub.last() == raw@[i as int]@);
        if raw[i].depth() > m {
            m = raw[i].depth();
        }
        i += 1;
    }
    assert(paths_view(raw@).subrange(0, i as int) =~= paths_view(raw@));
    m
}

/// The minimal covering set of `raw`, as [`minimal_roots`] states it.
pub fn minimal_roots_exec(raw: &Vec<FsPath>) -> (r: Vec<FsPath>)
    ensures
        paths_view(r@) == minimal_roots(paths_view(raw@)),
{
    let ghost v = paths_view(raw@);
    let maxd = max_depth_exec(raw);
    let mut out: Vec<FsPath> = Vec::new();
    let mut d: usize = 0;
    loop
        invariant_except_break
            d <= maxd,
            paths_view(out@) == kept_below(v, d as nat),
        invariant
            v == paths_view(raw@),
            maxd == max_depth(v),
        ensures
            paths_view(out@) == kept_below(v, (maxd + 1) as nat),
        decreases maxd - d,
    {
        let ghost base = out@;
        let mut j: usize = 0;
        while j < raw.len()
            invariant
                j <= raw.len(),
                v == paths_view(raw@),
                paths_view(out@) == kept_below(v, d as nat) + kept_at_depth(v, d as nat, j as int),
            decreases raw.len() - j,
        {
            let ghost prev = out@;
            assert(v[j as int] == raw@[j as int]@);
            if raw[j].depth() == d && !subsumed_at(raw, j) {
                out.push(raw[j].copy());
                assert(paths_view(out@) =~= paths_view(prev).push(v[j as int]));
            }
            j += 1;
            assert(paths_view(out@) =~= kept_below(v, d as nat) + kept_at_depth(v, d as nat, j as int));
        }
        assert(kept_below(v, (d + 1) as nat) == kept_below(v, d as nat) + kept_at_depth(
            v,
            d as nat,
            v.len() as int,
        ));
        if d == maxd {
            break;
        }
        d += 1;
    }
    out
}

/// The paths of `ex` that lie within a path of `inc`, in order.
fn scoped_exec(ex: &Vec<FsPath>, inc: &Vec<FsPath>) -> (r: Vec<FsPath>)
    ensures
        paths_view(r@) == scoped(paths_view(ex@), paths_view(inc@)),
{
    let mut out: Vec<FsPath> = Vec::new();
    let mut i: usize = 0;
    while i < ex.len()
        invariant
            i <= ex.len(),
            paths_view(out@) == scoped(paths_view(ex@).subrange(0, i as int), paths_view(inc@)),
        decreases ex.len() - i,
    {
        let ghost prev = out@;
        let ghost sub = paths_view(ex@).subrange(0, i + 1);
        assert(sub.drop_last() =~= paths_view(ex@).subrange(0, i as int));
        assert(sub.last() == ex@[i as int]@);
        if covers(inc, &ex[i]) {
            out.push(ex[i].copy());
            assert(paths_view(out@) =~= paths_view(prev).push(sub.last()));
        }
        i += 1;
    }
    assert(paths_view(ex@).subrange(0, i as int) =~= paths_view(ex@));
    out
}

} // verus!

verus! {

/// The effective policy of a walk: the minimal include roots and the minimal
/// exclude roots that lie within them.
pub struct EffectivePolicy {
    pub effective_includes: Vec<FsPath>,
    pub effective_excludes: Vec<FsPath>,
}

impl EffectivePolicy {
    /// The effective include roots as values.
    pub open spec fn includes(&self) -> Seq<Seq<PartView>> {
        paths_view(self.effective_includes@)
    }

    /// The effective exclude roots as values.
    pub open spec fn excludes(&self) -> Seq<Seq<PartView>> {
        paths_view(self.effective_excludes@)
    }

    /// Resolves raw include and exclude roots into this policy, replacing what it held.
    pub fn set_effective_policy(&mut self, include_roots: Vec<FsPath>, exclude_roots: Vec<FsPath>)
        ensures
            final(self).includes() == effective_includes_of(paths_view(include_roots@)),
            final(self).excludes() == effective_excludes_of(
                paths_view(include_roots@),
                paths_view(exclude_roots@),
            ),
    {
        let includes = minimal_roots_exec(&include_roots);
        let within = scoped_exec(&exclude_roots, &includes);
        let excludes = minimal_roots_exec(&within);
        self.effective_includes = includes;
        self.effective_excludes = excludes;
    }
}

/// Builds the effective policy of `config`, resolving relative roots under `base_dir`.
pub fn setup_policy_for_walk(config: &Config, base_dir: &FsPath) -> (r: EffectivePolicy)
    ensures
        r.includes() == effective_includes_of(
            normalized_all(base_dir@, paths_view(config.paths.roots@)),
        ),
        r.excludes() == effective_excludes_of(
            normalized_all(base_dir@, paths_view(config.paths.roots@)),
            normalized_all(base_dir@, raw_excludes(*config)),
        ),
{
    let config_policy = ConfigPolicy::new(config, base_dir);
    let mut effective_policy = EffectivePolicy {
        effective_includes: Vec::new(),
        effective_excludes: Vec::new(),
    };
    effective_policy.set_effective_policy(config_policy.include_roots, config_policy.exclude_roots);
    effective_policy
}

/// Whether a file at `current_path` may be processed: no exclude root is the
/// path itself or one of its ancestors.
pub fn should_process(policy: &EffectivePolicy, current_path: &FsPath) -> (r: bool)
    ensures
        r == !covered_by(policy.excludes(), current_path@),
{
    !covers(&policy.effective_excludes, current_path)
}

/// Whether a directory at `current_path` may be descended into; the same
/// test as [`should_process`].
pub fn should_descend(policy: &EffectivePolicy, current_path: &FsPath) -> (r: bool)
    ensures
        r == !covered_by(policy.excludes(), current_path@),
{
    !covers(&policy.effective_excludes, current_path)
}

} // verus!
