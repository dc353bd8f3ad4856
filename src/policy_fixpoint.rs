use vstd::prelude::*;

use crate::path::{is_ancestor_or_self, is_proper_ancestor, PartView};
use crate::policy::{
    covered_by, effective_excludes_of, effective_includes_of, kept_at_depth, kept_below,
    max_depth, minimal_roots, scoped, subsumed,
};
use crate::policy_laws::{law_excludes_within_includes, law_minimal_roots_unrelated};

verus! {

/// The paths of `s` with depth `d`, in order.
spec fn depth_eq(s: Seq<Seq<PartView>>, d: nat) -> Seq<Seq<PartView>>
    decreases s.len(),
{
    if s.len() == 0 {
        Seq::empty()
    } else if s.last().len() == d {
        depth_eq(s.drop_last(), d).push(s.last())
    } else {
        depth_eq(s.drop_last(), d)
    }
}

/// The paths of `s` with depth below `d`, in order.
spec fn depth_below(s: Seq<Seq<PartView>>, d: nat) -> Seq<Seq<PartView>>
    decreases s.len(),
{
    if s.len() == 0 {
        Seq::empty()
    } else if s.last().len() < d {
        depth_below(s.drop_last(), d).push(s.last())
    } else {
        depth_below(s.drop_last(), d)
    }
}

/// Depths never decrease along `s`.
spec fn depth_sorted(s: Seq<Seq<PartView>>) -> bool {
    forall|i: int, j: int| 0 <= i < j < s.len() ==> s[i].len() <= s[j].len()
}

/// No path of `s` is an ancestor of, or equal to, a path at another position.
spec fn unrelated(s: Seq<Seq<PartView>>) -> bool {
    forall|i: int, j: int|
        0 <= i < s.len() && 0 <= j < s.len() && i != j ==> !is_ancestor_or_self(s[i], s[j])
}

/// Every path kept at depth `d` has that depth.
proof fn lemma_kept_at_depth_depth(raw: Seq<Seq<PartView>>, d: nat, n: int)
    ensures
        forall|i: int|
            0 <= i < kept_at_depth(raw, d, n).len() ==> (#[trigger] kept_at_depth(raw, d, n)[i]).len()
                == d,
    decreases n,
{
    if n > 0 {
        lemma_kept_at_depth_depth(raw, d, n - 1);
        let prev = kept_at_depth(raw, d, n - 1);
        let cur = kept_at_depth(raw, d, n);
        assert forall|i: int| 0 <= i < cur.len() implies (#[trigger] cur[i]).len() == d by {
            if i < prev.len() {
                assert(cur[i] == prev[i]);
            }
        }
    }
}

/// Paths kept at one depth are pairwise different.
proof fn lemma_kept_at_depth_distinct(raw: Seq<Seq<PartView>>, d: nat, n: int)
    requires
        n <= raw.len(),
    ensures
        forall|i: int, j: int|
            0 <= i < j < kept_at_depth(raw, d, n).len() ==> kept_at_depth(raw, d, n)[i]
                != kept_at_depth(raw, d, n)[j],
    decreases n,
{
    if n > 0 {
        lemma_kept_at_depth_distinct(raw, d, n - 1);
        let prev = kept_at_depth(raw, d, n - 1);
        let cur = kept_at_depth(raw, d, n);
        if raw[n - 1].len() == d && !subsumed(raw, n - 1) {
            crate::policy_laws::lemma_kept_at_depth_source(raw, d, n - 1);
            assert forall|i: int, j: int| 0 <= i < j < cur.len() implies cur[i] != cur[j] by {
                if j == cur.len() - 1 {
                    assert(cur[i] == prev[i]);
                    let k = choose|k: int| 0 <= k < n - 1 && raw[k] == prev[i] && !subsumed(raw, k);
                    if cur[i] == cur[j] {
                        assert(raw[k] == raw[n - 1]);
                        assert(subsumed(raw, n - 1));
                    }
                } else {
                    assert(cur[i] == prev[i] && cur[j] == prev[j]);
                }
            }
        }
    }
}

/// What is kept below a depth is sorted by depth, pairwise different, and
/// shallower than that depth.
proof fn lemma_kept_below_shape(raw: Seq<Seq<PartView>>, d: nat)
    ensures
        depth_sorted(kept_below(raw, d)),
        forall|i: int| 0 <= i < kept_below(raw, d).len() ==> (#[trigger] kept_below(raw, d)[i]).len() < d,
        forall|i: int, j: int|
            0 <= i < j < kept_below(raw, d).len() ==> kept_below(raw, d)[i] != kept_below(raw, d)[j],
    decreases d,
{
    if d > 0 {
        let dd = (d - 1) as nat;
        lemma_kept_below_shape(raw, dd);
        lemma_kept_at_depth_depth(raw, dd, raw.len() as int);
        lemma_kept_at_depth_distinct(raw, dd, raw.len() as int);
        let a = kept_below(raw, dd);
        let b = kept_at_depth(raw, dd, raw.len() as int);
        let c = kept_below(raw, d);
        assert(c == a + b);
        assert forall|i: int| 0 <= i < c.len() implies (#[trigger] c[i]).len() < d by {
            if i < a.len() {
                assert(c[i] == a[i]);
            } else {
                assert(c[i] == b[i - a.len()]);
            }
        }
        assert forall|i: int, j: int| 0 <= i < j < c.len() implies c[i].len() <= c[j].len() by {
            if j < a.len() {
                assert(c[i] == a[i] && c[j] == a[j]);
            } else if i < a.len() {
                assert(c[i] == a[i] && c[j] == b[j - a.len()]);
            } else {
                assert(c[i] == b[i - a.len()] && c[j] == b[j - a.len()]);
            }
        }
        assert forall|i: int, j: int| 0 <= i < j < c.len() implies c[i] != c[j] by {
            if j < a.len() {
                assert(c[i] == a[i] && c[j] == a[j]);
            } else if i < a.len() {
                assert(c[i] == a[i] && c[j] == b[j - a.len()]);
                assert(c[i].len() < dd);
            } else {
                assert(c[i] == b[i - a.len()] && c[j] == b[j - a.len()]);
            }
        }
    }
}

/// A minimal covering set is sorted by depth and its paths are unrelated.
proof fn lemma_minimal_roots_shape(raw: Seq<Seq<PartView>>)
    ensures
        depth_sorted(minimal_roots(raw)),
        unrelated(minimal_roots(raw)),
{
    let out = minimal_roots(raw);
    lemma_kept_below_shape(raw, max_depth(raw) + 1);
    law_minimal_roots_unrelated(raw);
    assert forall|i: int, j: int|
        0 <= i < out.len() && 0 <= j < out.len() && i != j implies !is_ancestor_or_self(
        out[i],
        out[j],
    ) by {
        if i < j {
            assert(out[i] != out[j]);
        } else {
            assert(out[j] != out[i]);
        }
    }
}

/// In a list of unrelated paths nothing is subsumed.
proof fn lemma_unrelated_none_subsumed(s: Seq<Seq<PartView>>, j: int)
    requires
        unrelated(s),
        0 <= j < s.len(),
    ensures
        !subsumed(s, j),
{
    if subsumed(s, j) {
        let i = choose|i: int|
            0 <= i < s.len() && (is_proper_ancestor(s[i], s[j]) || (i < j && s[i] == s[j]));
        if is_proper_ancestor(s[i], s[j]) {
            assert(i != j);
        } else {
            assert(s[j].subrange(0, s[j].len() as int) =~= s[j]);
            assert(is_ancestor_or_self(s[i], s[j]));
        }
    }
}

/// With nothing subsumed, the paths kept at a depth are those of that depth.
proof fn lemma_kept_at_depth_all(s: Seq<Seq<PartView>>, d: nat, n: int)
    requires
        unrelated(s),
        0 <= n <= s.len(),
    ensures
        kept_at_depth(s, d, n) == depth_eq(s.subrange(0, n), d),
    decreases n,
{
    if n > 0 {
        lemma_kept_at_depth_all(s, d, n - 1);
        lemma_unrelated_none_subsumed(s, n - 1);
        let t = s.subrange(0, n);
        assert(t.drop_last() =~= s.subrange(0, n - 1));
        assert(t.last() == s[n - 1]);
    } else {
        assert(s.subrange(0, 0).len() == 0);
    }
}

/// In a depth-sorted list with every depth at most `m`, nothing has depth `d > m`.
proof fn lemma_depth_eq_empty(s: Seq<Seq<PartView>>, d: nat)
    requires
        forall|i: int| 0 <= i < s.len() ==> (#[trigger] s[i]).len() < d,
    ensures
        depth_eq(s, d).len() == 0,
    decreases s.len(),
{
    if s.len() > 0 {
        assert forall|i: int| 0 <= i < s.drop_last().len() implies (#[trigger] s.drop_last()[i]).len()
            < d by {
            assert(s.drop_last()[i] == s[i]);
        }
        lemma_depth_eq_empty(s.drop_last(), d);
        assert(s.last() == s[s.len() - 1]);
    }
}

/// In a depth-sorted list the paths below depth `d + 1` are those below `d`
/// followed by those of depth `d`.
proof fn lemma_depth_split(s: Seq<Seq<PartView>>, d: nat)
    requires
        depth_sorted(s),
    ensures
        depth_below(s, d + 1) == depth_below(s, d) + depth_eq(s, d),
    decreases s.len(),
{
    if s.len() > 0 {
        let t = s.drop_last();
        assert(depth_sorted(t)) by {
            assert forall|i: int, j: int| 0 <= i < j < t.len() implies t[i].len() <= t[j].len() by {
                assert(t[i] == s[i] && t[j] == s[j]);
            }
        }
        lemma_depth_split(t, d);
        let last = s.last();
        if last.len() < d {
            assert forall|i: int| 0 <= i < t.len() implies (#[trigger] t[i]).len() < d by {
                assert(t[i] == s[i]);
                assert(s[i].len() <= s[s.len() - 1].len());
            }
            lemma_depth_eq_empty(t, d);
            assert(depth_eq(t, d) =~= Seq::<Seq<PartView>>::empty());
            assert(depth_below(s, d + 1) =~= depth_below(s, d) + depth_eq(s, d));
        } else if last.len() == d {
            assert(depth_below(s, d + 1) =~= depth_below(s, d) + depth_eq(s, d));
        } else {
            assert(depth_below(s, d + 1) =~= depth_below(s, d) + depth_eq(s, d));
        }
    }
}

/// For a sorted list of unrelated paths, what is kept below depth `d` is
/// every path shallower than `d`.
proof fn lemma_kept_below_all(s: Seq<Seq<PartView>>, d: nat)
    requires
        unrelated(s),
        depth_sorted(s),
    ensures
        kept_below(s, d) == depth_below(s, d),
    decreases d,
{
    if d == 0 {
        lemma_depth_below_zero(s);
    } else {
        let dd = (d - 1) as nat;
        lemma_kept_below_all(s, dd);
        lemma_kept_at_depth_all(s, dd, s.len() as int);
        assert(s.subrange(0, s.len() as int) =~= s);
        lemma_depth_split(s, dd);
    }
}

/// Nothing is shallower than depth zero.
proof fn lemma_depth_below_zero(s: Seq<Seq<PartView>>)
    ensures
        depth_below(s, 0) == Seq::<Seq<PartView>>::empty(),
    decreases s.len(),
{
    if s.len() > 0 {
        lemma_depth_below_zero(s.drop_last());
    }
}

/// When every path is shallower than `d`, all of them are below `d`.
proof fn lemma_depth_below_full(s: Seq<Seq<PartView>>, d: nat)
    requires
        forall|i: int| 0 <= i < s.len() ==> (#[trigger] s[i]).len() < d,
    ensures
        depth_below(s, d) == s,
    decreases s.len(),
{
    if s.len() > 0 {
        let t = s.drop_last();
        assert forall|i: int| 0 <= i < t.len() implies (#[trigger] t[i]).len() < d by {
            assert(t[i] == s[i]);
        }
        lemma_depth_below_full(t, d);
        assert(s.last() == s[s.len() - 1]);
        assert(t.push(s.last()) =~= s);
    }
}

/// A sorted list of unrelated paths is its own minimal covering set.
proof fn lemma_minimal_roots_fixed(s: Seq<Seq<PartView>>)
    requires
        unrelated(s),
        depth_sorted(s),
    ensures
        minimal_roots(s) == s,
{
    lemma_kept_below_all(s, max_depth(s) + 1);
    assert forall|i: int| 0 <= i < s.len() implies (#[trigger] s[i]).len() < max_depth(s) + 1 by {
        crate::policy_laws::lemma_max_depth_bounds(s, i);
    }
    lemma_depth_below_full(s, max_depth(s) + 1);
}

/// When every path of `ex` lies within `inc`, `scoped` keeps them all.
proof fn lemma_scoped_all(ex: Seq<Seq<PartView>>, inc: Seq<Seq<PartView>>)
    requires
        forall|i: int| 0 <= i < ex.len() ==> covered_by(inc, #[trigger] ex[i]),
    ensures
        scoped(ex, inc) == ex,
    decreases ex.len(),
{
    if ex.len() > 0 {
        let t = ex.drop_last();
        assert forall|i: int| 0 <= i < t.len() implies covered_by(inc, #[trigger] t[i]) by {
            assert(t[i] == ex[i]);
        }
        lemma_scoped_all(t, inc);
        assert(ex.last() == ex[ex.len() - 1]);
        assert(t.push(ex.last()) =~= ex);
    }
}

/// Idempotence: resolving a minimal covering set again gives it back.
pub proof fn law_minimal_roots_idempotent(raw: Seq<Seq<PartView>>)
    ensures
        minimal_roots(minimal_roots(raw)) == minimal_roots(raw),
{
    lemma_minimal_roots_shape(raw);
    lemma_minimal_roots_fixed(minimal_roots(raw));
}

/// Idempotence of a policy: resolving its effective include and exclude
/// roots again yields the same effective roots.
pub proof fn law_effective_policy_idempotent(inc: Seq<Seq<PartView>>, ex: Seq<Seq<PartView>>)
    ensures
        effective_includes_of(effective_includes_of(inc)) == effective_includes_of(inc),
        effective_excludes_of(effective_includes_of(inc), effective_excludes_of(inc, ex))
            == effective_excludes_of(inc, ex),
{
    let i1 = effective_includes_of(inc);
    let e1 = effective_excludes_of(inc, ex);
    law_minimal_roots_idempotent(inc);
    law_excludes_within_includes(inc, ex);
    lemma_scoped_all(e1, i1);
    assert(minimal_roots(i1) == i1);
    assert(scoped(e1, minimal_roots(i1)) == e1);
    law_minimal_roots_idempotent(scoped(ex, minimal_roots(inc)));
}

} // verus!
