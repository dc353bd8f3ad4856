use vstd::prelude::*;

use crate::path::{is_ancestor_or_self, is_proper_ancestor, PartView};
use crate::policy::{
    covered_by, effective_excludes_of, effective_includes_of, kept_at_depth, kept_below,
    max_depth, minimal_roots, scoped, subsumed,
};

verus! {

/// Every root kept at one depth is a root of `raw` that nothing subsumes.
pub(crate) proof fn lemma_kept_at_depth_source(raw: Seq<Seq<PartView>>, d: nat, n: int)
    requires
        n <= raw.len(),
    ensures
        forall|i: int|
            0 <= i < kept_at_depth(raw, d, n).len() ==> exists|k: int|
                0 <= k < n && raw[k] == #[trigger] kept_at_depth(raw, d, n)[i] && !subsumed(raw, k),
    decreases n,
{
    if n > 0 {
        lemma_kept_at_depth_source(raw, d, n - 1);
        let prev = kept_at_depth(raw, d, n - 1);
        let cur = kept_at_depth(raw, d, n);
        assert forall|i: int| 0 <= i < cur.len() implies exists|k: int|
            0 <= k < n && raw[k] == #[trigger] cur[i] && !subsumed(raw, k) by {
            if i < prev.len() {
                assert(cur[i] == prev[i]);
                let k = choose|k: int| 0 <= k < n - 1 && raw[k] == prev[i] && !subsumed(raw, k);
                assert(0 <= k < n && raw[k] == cur[i] && !subsumed(raw, k));
            } else {
                assert(cur[i] == raw[n - 1] && !subsumed(raw, n - 1));
            }
        }
    }
}

/// Every root kept below a depth is a root of `raw` that nothing subsumes.
proof fn lemma_kept_below_source(raw: Seq<Seq<PartView>>, d: nat)
    ensures
        forall|i: int|
            0 <= i < kept_below(raw, d).len() ==> exists|k: int|
                0 <= k < raw.len() && raw[k] == #[trigger] kept_below(raw, d)[i] && !subsumed(
                    raw,
                    k,
                ),
    decreases d,
{
    if d > 0 {
        let dd = (d - 1) as nat;
        lemma_kept_below_source(raw, dd);
        lemma_kept_at_depth_source(raw, dd, raw.len() as int);
        let a = kept_below(raw, dd);
        let b = kept_at_depth(raw, dd, raw.len() as int);
        let cur = kept_below(raw, d);
        assert(cur == a + b);
        assert forall|i: int| 0 <= i < cur.len() implies exists|k: int|
            0 <= k < raw.len() && raw[k] == #[trigger] cur[i] && !subsumed(raw, k) by {
            if i < a.len() {
                assert(cur[i] == a[i]);
            } else {
                assert(cur[i] == b[i - a.len()]);
            }
        }
    }
}

/// An ancestor-or-self that is not equal is a strict ancestor.
proof fn lemma_distinct_ancestor_is_proper(a: Seq<PartView>, p: Seq<PartView>)
    requires
        is_ancestor_or_self(a, p),
        a != p,
    ensures
        is_proper_ancestor(a, p),
{
    if a.len() == p.len() {
        assert(p.subrange(0, p.len() as int) =~= p);
    }
}

/// Minimality: of two different roots in a minimal covering set, neither is
/// an ancestor of the other.
pub proof fn law_minimal_roots_unrelated(raw: Seq<Seq<PartView>>)
    ensures
        forall|i: int, j: int|
            0 <= i < minimal_roots(raw).len() && 0 <= j < minimal_roots(raw).len()
                && minimal_roots(raw)[i] != minimal_roots(raw)[j] ==> !is_ancestor_or_self(
                #[trigger] minimal_roots(raw)[i],
                #[trigger] minimal_roots(raw)[j],
            ),
{
    let out = minimal_roots(raw);
    lemma_kept_below_source(raw, crate::policy::max_depth(raw) + 1);
    assert forall|i: int, j: int|
        0 <= i < out.len() && 0 <= j < out.len() && out[i] != out[j] implies !is_ancestor_or_self(
        #[trigger] out[i],
        #[trigger] out[j],
    ) by {
        if is_ancestor_or_self(out[i], out[j]) {
            let k1 = choose|k: int| 0 <= k < raw.len() && raw[k] == out[i] && !subsumed(raw, k);
            let k2 = choose|k: int| 0 <= k < raw.len() && raw[k] == out[j] && !subsumed(raw, k);
            lemma_distinct_ancestor_is_proper(out[i], out[j]);
            assert(is_proper_ancestor(raw[k1], raw[k2]));
            assert(subsumed(raw, k2));
        }
    }
}

/// Minimality of a resolved policy: no effective include root is an
/// ancestor of another, and likewise for the effective exclude roots.
pub proof fn law_effective_roots_minimal(inc: Seq<Seq<PartView>>, ex: Seq<Seq<PartView>>)
    ensures
        forall|i: int, j: int|
            0 <= i < effective_includes_of(inc).len() && 0 <= j < effective_includes_of(inc).len()
                && effective_includes_of(inc)[i] != effective_includes_of(inc)[j]
                ==> !is_ancestor_or_self(
                #[trigger] effective_includes_of(inc)[i],
                #[trigger] effective_includes_of(inc)[j],
            ),
        forall|i: int, j: int|
            0 <= i < effective_excludes_of(inc, ex).len() && 0 <= j < effective_excludes_of(
                inc,
                ex,
            ).len() && effective_excludes_of(inc, ex)[i] != effective_excludes_of(inc, ex)[j]
                ==> !is_ancestor_or_self(
                #[trigger] effective_excludes_of(inc, ex)[i],
                #[trigger] effective_excludes_of(inc, ex)[j],
            ),
{
    law_minimal_roots_unrelated(inc);
    law_minimal_roots_unrelated(scoped(ex, minimal_roots(inc)));
}

/// Every path kept by `scoped` lies within `inc`.
proof fn lemma_scoped_covered(ex: Seq<Seq<PartView>>, inc: Seq<Seq<PartView>>)
    ensures
        forall|i: int|
            0 <= i < scoped(ex, inc).len() ==> covered_by(inc, #[trigger] scoped(ex, inc)[i]),
    decreases ex.len(),
{
    if ex.len() > 0 {
        lemma_scoped_covered(ex.drop_last(), inc);
        let prev = scoped(ex.drop_last(), inc);
        let cur = scoped(ex, inc);
        assert forall|i: int| 0 <= i < cur.len() implies covered_by(inc, #[trigger] cur[i]) by {
            if i < prev.len() {
                assert(cur[i] == prev[i]);
            }
        }
    }
}

/// Coverage: every effective exclude root is an effective include root or
/// lies below one.
pub proof fn law_excludes_within_includes(inc: Seq<Seq<PartView>>, ex: Seq<Seq<PartView>>)
    ensures
        forall|i: int|
            0 <= i < effective_excludes_of(inc, ex).len() ==> covered_by(
                effective_includes_of(inc),
                #[trigger] effective_excludes_of(inc, ex)[i],
            ),
{
    let s = scoped(ex, minimal_roots(inc));
    lemma_scoped_covered(ex, minimal_roots(inc));
    lemma_kept_below_source(s, crate::policy::max_depth(s) + 1);
    let out = effective_excludes_of(inc, ex);
    assert forall|i: int| 0 <= i < out.len() implies covered_by(
        effective_includes_of(inc),
        #[trigger] out[i],
    ) by {
        let k = choose|k: int| 0 <= k < s.len() && s[k] == out[i] && !subsumed(s, k);
        assert(covered_by(minimal_roots(inc), s[k]));
    }
}

/// Resolution depends on the raw roots alone: resolving equal raw lists
/// gives equal effective roots.
pub proof fn law_resolution_deterministic(
    inc1: Seq<Seq<PartView>>,
    ex1: Seq<Seq<PartView>>,
    inc2: Seq<Seq<PartView>>,
    ex2: Seq<Seq<PartView>>,
)
    requires
        inc1 == inc2,
        ex1 == ex2,
    ensures
        effective_includes_of(inc1) == effective_includes_of(inc2),
        effective_excludes_of(inc1, ex1) == effective_excludes_of(inc2, ex2),
{
}

/// A path below an excluded path is excluded too.
pub proof fn law_exclusion_inherited(set: Seq<Seq<PartView>>, p: Seq<PartView>, q: Seq<PartView>)
    requires
        covered_by(set, p),
        is_ancestor_or_self(p, q),
    ensures
        covered_by(set, q),
{
    let i = choose|i: int| 0 <= i < set.len() && is_ancestor_or_self(set[i], p);
    assert(q.subrange(0, set[i].len() as int) =~= p.subrange(0, set[i].len() as int));
    assert(is_ancestor_or_self(set[i], q));
}

} // verus!

verus! {

/// Membership: a path at or below an effective exclude root is covered by
/// the exclude roots, so it is neither processed nor descended into.
pub proof fn law_excluded_subtree(ex: Seq<Seq<PartView>>, k: int, path: Seq<PartView>)
    requires
        0 <= k < ex.len(),
        is_ancestor_or_self(ex[k], path),
    ensures
        covered_by(ex, path),
{
}

} // verus!

verus! {

/// No root of `raw` is deeper than its greatest depth.
pub(crate) proof fn lemma_max_depth_bounds(raw: Seq<Seq<PartView>>, k: int)
    requires
        0 <= k < raw.len(),
    ensures
        raw[k].len() <= max_depth(raw),
    decreases raw.len(),
{
    if k < raw.len() - 1 {
        lemma_max_depth_bounds(raw.drop_last(), k);
        assert(raw.drop_last()[k] == raw[k]);
    }
}

/// A root of depth `d` that nothing subsumes is kept at depth `d`.
proof fn lemma_kept_at_depth_has(raw: Seq<Seq<PartView>>, d: nat, n: int, k: int)
    requires
        0 <= k < n <= raw.len(),
        raw[k].len() == d,
        !subsumed(raw, k),
    ensures
        kept_at_depth(raw, d, n).contains(raw[k]),
    decreases n,
{
    let prev = kept_at_depth(raw, d, n - 1);
    if k == n - 1 {
        assert(kept_at_depth(raw, d, n) == prev.push(raw[k]));
        assert(kept_at_depth(raw, d, n)[prev.len() as int] == raw[k]);
    } else {
        lemma_kept_at_depth_has(raw, d, n - 1, k);
        let i = choose|i: int| 0 <= i < prev.len() && prev[i] == raw[k];
        let cur = kept_at_depth(raw, d, n);
        if raw[n - 1].len() == d && !subsumed(raw, n - 1) {
            assert(cur == prev.push(raw[n - 1]));
            assert(cur[i] == raw[k]);
        } else {
            assert(cur == prev);
        }
    }
}

/// Whatever is kept at a depth below `bound` is kept below `bound`.
proof fn lemma_kept_below_has(raw: Seq<Seq<PartView>>, d: nat, bound: nat, x: Seq<PartView>)
    requires
        d < bound,
        kept_at_depth(raw, d, raw.len() as int).contains(x),
    ensures
        kept_below(raw, bound).contains(x),
    decreases bound,
{
    let dd = (bound - 1) as nat;
    let a = kept_below(raw, dd);
    let b = kept_at_depth(raw, dd, raw.len() as int);
    assert(kept_below(raw, bound) == a + b);
    if d == dd {
        let i = choose|i: int| 0 <= i < b.len() && b[i] == x;
        assert((a + b)[a.len() + i] == x);
    } else {
        lemma_kept_below_has(raw, d, dd, x);
        let i = choose|i: int| 0 <= i < a.len() && a[i] == x;
        assert((a + b)[i] == x);
    }
}

/// A root that nothing subsumes belongs to the minimal covering set.
proof fn lemma_unsubsumed_kept(raw: Seq<Seq<PartView>>, k: int)
    requires
        0 <= k < raw.len(),
        !subsumed(raw, k),
    ensures
        minimal_roots(raw).contains(raw[k]),
{
    lemma_max_depth_bounds(raw, k);
    lemma_kept_at_depth_has(raw, raw[k].len(), raw.len() as int, k);
    lemma_kept_below_has(raw, raw[k].len(), max_depth(raw) + 1, raw[k]);
}

/// Being an ancestor-or-self is transitive.
proof fn lemma_ancestor_trans(a: Seq<PartView>, b: Seq<PartView>, c: Seq<PartView>)
    requires
        is_ancestor_or_self(a, b),
        is_ancestor_or_self(b, c),
    ensures
        is_ancestor_or_self(a, c),
{
    assert(c.subrange(0, a.len() as int) =~= b.subrange(0, a.len() as int));
}

/// Every root of `raw` at or before position `k` within its depth is covered.
proof fn lemma_root_covered(raw: Seq<Seq<PartView>>, k: int)
    requires
        0 <= k < raw.len(),
    ensures
        covered_by(minimal_roots(raw), raw[k]),
    decreases raw[k].len(), k,
{
    if !subsumed(raw, k) {
        lemma_unsubsumed_kept(raw, k);
        let i = choose|i: int|
            0 <= i < minimal_roots(raw).len() && minimal_roots(raw)[i] == raw[k];
        assert(raw[k].subrange(0, raw[k].len() as int) =~= raw[k]);
        assert(is_ancestor_or_self(minimal_roots(raw)[i], raw[k]));
    } else {
        let i = choose|i: int|
            0 <= i < raw.len() && (is_proper_ancestor(raw[i], raw[k]) || (i < k && raw[i]
                == raw[k]));
        lemma_root_covered(raw, i);
        let out = minimal_roots(raw);
        let m = choose|m: int| 0 <= m < out.len() && is_ancestor_or_self(out[m], raw[i]);
        if raw[i] != raw[k] {
            lemma_ancestor_trans(out[m], raw[i], raw[k]);
        }
        assert(is_ancestor_or_self(out[m], raw[k]));
    }
}

/// Coverage of the raw roots: every raw root is a kept root or lies below
/// one, so resolution loses no part of the tree that was asked for.
pub proof fn law_minimal_roots_cover(raw: Seq<Seq<PartView>>)
    ensures
        forall|k: int| 0 <= k < raw.len() ==> covered_by(minimal_roots(raw), #[trigger] raw[k]),
{
    assert forall|k: int| 0 <= k < raw.len() implies covered_by(
        minimal_roots(raw),
        #[trigger] raw[k],
    ) by {
        lemma_root_covered(raw, k);
    }
}

} // verus!

verus! {

/// A path of `ex` that lies within `inc` is kept by `scoped`.
proof fn lemma_scoped_has(ex: Seq<Seq<PartView>>, inc: Seq<Seq<PartView>>, k: int)
    requires
        0 <= k < ex.len(),
        covered_by(inc, ex[k]),
    ensures
        scoped(ex, inc).contains(ex[k]),
    decreases ex.len(),
{
    let prev = scoped(ex.drop_last(), inc);
    let cur = scoped(ex, inc);
    if k == ex.len() - 1 {
        assert(cur == prev.push(ex[k]));
        assert(cur[prev.len() as int] == ex[k]);
    } else {
        lemma_scoped_has(ex.drop_last(), inc, k);
        assert(ex.drop_last()[k] == ex[k]);
        let i = choose|i: int| 0 <= i < prev.len() && prev[i] == ex[k];
        if covered_by(inc, ex.last()) {
            assert(cur == prev.push(ex.last()));
        }
        assert(cur[i] == ex[k]);
    }
}

/// Every raw exclude root that lies within an effective include root is
/// covered by the effective exclude roots: no requested exclusion is lost.
pub proof fn law_raw_excludes_enforced(inc: Seq<Seq<PartView>>, ex: Seq<Seq<PartView>>)
    ensures
        forall|k: int|
            0 <= k < ex.len() && covered_by(effective_includes_of(inc), #[trigger] ex[k])
                ==> covered_by(effective_excludes_of(inc, ex), ex[k]),
{
    let s = scoped(ex, minimal_roots(inc));
    law_minimal_roots_cover(s);
    assert forall|k: int|
        0 <= k < ex.len() && covered_by(effective_includes_of(inc), #[trigger] ex[k]) implies covered_by(
        effective_excludes_of(inc, ex),
        ex[k],
    ) by {
        lemma_scoped_has(ex, minimal_roots(inc), k);
        let j = choose|j: int| 0 <= j < s.len() && s[j] == ex[k];
        assert(covered_by(minimal_roots(s), s[j]));
    }
}

} // verus!
