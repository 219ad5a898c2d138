//! Skeleton ordering: bones are evaluated parents first.
use vstd::prelude::*;

verus! {

/// Bone `i` has a parent inside the skeleton (a negative or out-of-range
/// parent index marks a root).
pub open spec fn has_parent(parents: Seq<i32>, i: int) -> bool {
    0 <= parents[i] < parents.len()
}

/// Bone `j` appears in `order`.
pub open spec fn listed(order: Seq<usize>, j: int) -> bool {
    exists|k: int| 0 <= k < order.len() && order[k] == j
}

/// `order` lists every bone exactly once and puts each parent before its
/// children.
pub open spec fn is_topological_order(parents: Seq<i32>, order: Seq<usize>) -> bool {
    &&& order.len() == parents.len()
    &&& forall|k: int| 0 <= k < order.len() ==> order[k] < parents.len()
    &&& forall|k: int, l: int| 0 <= k < l < order.len() ==> order[k] != order[l]
    &&& forall|j: int| 0 <= j < parents.len() ==> #[trigger] listed(order, j)
    &&& forall|k: int|
        0 <= k < order.len() && #[trigger] has_parent(parents, order[k] as int) ==> exists|l: int|
            0 <= l < k && order[l] == parents[order[k] as int]
}

/// A non-empty set of bones each of whose parent lies in the set: the bones
/// of a parent cycle and those hanging from it.
pub open spec fn is_parent_closed(parents: Seq<i32>, s: Seq<bool>) -> bool {
    &&& s.len() == parents.len()
    &&& exists|i: int| 0 <= i < s.len() && s[i]
    &&& forall|i: int| 0 <= i < s.len() && #[trigger] s[i] ==> has_parent(parents, i) && s[parents[i] as int]
}

/// Orders bones so that every parent precedes its children; `None` when
/// the parent links hold a cycle.
pub fn sort_bones_topologically(parents: &Vec<i32>) -> (r: Option<Vec<usize>>)
    ensures
        match r {
            Some(order) => is_topological_order(parents@, order@),
            None => exists|s: Seq<bool>| is_parent_closed(parents@, s),
        },
{
    let n = parents.len();
    let mut placed: Vec<bool> = Vec::new();
    let mut i: usize = 0;
    while i < n
        invariant
            n == parents@.len(),
            i <= n,
            placed@.len() == i,
            forall|j: int| 0 <= j < i ==> !placed@[j],
        decreases n - i,
    {
        placed.push(false);
        i = i + 1;
    }
    let mut order: Vec<usize> = Vec::new();
    let mut progress = true;
    proof {
        lemma_count_none(placed@);
    }
    while progress
        invariant
            n == parents@.len(),
            placed@.len() == n,
            order@.len() <= n,
            order@.len() == count_true(placed@),
            forall|k: int| 0 <= k < order@.len() ==> order@[k] < n,
            forall|k: int, l: int| 0 <= k < l < order@.len() ==> order@[k] != order@[l],
            forall|j: int| 0 <= j < n ==> (placed@[j] <==> exists|k: int| 0 <= k < order@.len() && order@[k] == j),
            forall|k: int|
                0 <= k < order@.len() && #[trigger] has_parent(parents@, order@[k] as int) ==> exists|l: int|
                    0 <= l < k && order@[l] == parents@[order@[k] as int],
            !progress ==> forall|j: int| 0 <= j < n && !placed@[j] ==> has_parent(parents@, j)
                && !placed@[parents@[j] as int],
        decreases n - order@.len() + (if progress { 1int } else { 0int }),
    {
        progress = false;
        let ghost start_len = order@.len();
        let mut j: usize = 0;
        while j < n
            invariant
                n == parents@.len(),
                placed@.len() == n,
                j <= n,
                start_len <= order@.len() <= n,
                order@.len() == count_true(placed@),
                progress ==> order@.len() > start_len,
                forall|k: int| 0 <= k < order@.len() ==> order@[k] < n,
                forall|k: int, l: int| 0 <= k < l < order@.len() ==> order@[k] != order@[l],
                forall|x: int| 0 <= x < n ==> (placed@[x] <==> exists|k: int| 0 <= k < order@.len() && order@[k] == x),
                forall|k: int|
                    0 <= k < order@.len() && #[trigger] has_parent(parents@, order@[k] as int) ==> exists|l: int|
                        0 <= l < k && order@[l] == parents@[order@[k] as int],
                !progress ==> forall|x: int| 0 <= x < j && !placed@[x] ==> has_parent(parents@, x)
                    && !placed@[parents@[x] as int],
            decreases n - j,
        {
            if !placed[j] {
                let p = parents[j];
                let ready = p < 0 || p as usize >= n || placed[p as usize];
                if !ready {
                    assert(has_parent(parents@, j as int) && !placed@[parents@[j as int] as int]);
                }
                if ready {
                    let ghost old_order = order@;
                    proof {
                        lemma_count_below(placed@, j as int);
                        lemma_count_set(placed@, j as int);
                    }
                    order.push(j);
                    placed.set(j, true);
                    progress = true;
                    proof {
                        let m = old_order.len() as int;
                        assert(order@[m] == j);
                        if has_parent(parents@, j as int) {
                            let pi = parents@[j as int] as int;
                            assert(placed@[pi]);
                            let l = choose|l: int| 0 <= l < old_order.len() && old_order[l] == pi;
                            assert(order@[l] == pi);
                        }
                        assert forall|k: int|
                            0 <= k < order@.len() && #[trigger] has_parent(parents@, order@[k] as int) implies exists|l: int|
                                0 <= l < k && order@[l] == parents@[order@[k] as int] by {
                            if k < m {
                                assert(order@[k] == old_order[k]);
                                let l = choose|l: int| 0 <= l < k && old_order[l] == parents@[old_order[k] as int];
                                assert(order@[l] == old_order[l]);
                            } else {
                                let pi = parents@[j as int] as int;
                                let l = choose|l: int| 0 <= l < old_order.len() && old_order[l] == pi;
                                assert(order@[l] == pi);
                            }
                        }
                        assert forall|x: int| 0 <= x < n implies (placed@[x] <==> exists|k: int|
                            0 <= k < order@.len() && order@[k] == x) by {
                            if x != j {
                                if placed@[x] {
                                    let k = choose|k: int| 0 <= k < old_order.len() && old_order[k] == x;
                                    assert(order@[k] == x);
                                }
                                if exists|k: int| 0 <= k < order@.len() && order@[k] == x {
                                    let k = choose|k: int| 0 <= k < order@.len() && order@[k] == x;
                                    assert(old_order[k] == x);
                                }
                            }
                        }
                    }
                }
            }
            j = j + 1;
        }
    }
    if order.len() == n {
        proof {
            assert forall|k: int| 0 <= k < order@.len() implies order@[k] < parents@.len() by {}
            assert forall|j: int| 0 <= j < n implies #[trigger] listed(order@, j) by {
                if !placed@[j] {
                    lemma_count_below(placed@, j);
                }
            }
        }
        Some(order)
    } else {
        proof {
            let s = placed@.map_values(|b: bool| !b);
            if forall|x: int| 0 <= x < n ==> placed@[x] {
                lemma_count_all(placed@);
            }
            let x = choose|x: int| 0 <= x < n && !placed@[x];
            assert(s[x]);
            assert forall|i: int| 0 <= i < s.len() && #[trigger] s[i] implies has_parent(parents@, i)
                && s[parents@[i] as int] by {
                assert(!placed@[i]);
            }
            assert(is_parent_closed(parents@, s));
        }
        None
    }
}

/// A skeleton that has a parents-first order has no parent cycle: no
/// non-empty set of bones holds the parent of each of its bones.
pub proof fn lemma_topological_order_excludes_cycles(parents: Seq<i32>, order: Seq<usize>, s: Seq<bool>)
    requires
        is_topological_order(parents, order),
    ensures
        !is_parent_closed(parents, s),
{
    if is_parent_closed(parents, s) {
        assert forall|k: int| 0 <= k < order.len() implies !s[order[k] as int] by {
            lemma_prefix_outside(parents, order, s, k);
        }
        let x = choose|i: int| 0 <= i < s.len() && s[i];
        assert(listed(order, x));
        let k = choose|k: int| 0 <= k < order.len() && order[k] == x;
        assert(!s[order[k] as int]);
    }
}

proof fn lemma_prefix_outside(parents: Seq<i32>, order: Seq<usize>, s: Seq<bool>, k: int)
    requires
        is_topological_order(parents, order),
        is_parent_closed(parents, s),
        0 <= k < order.len(),
    ensures
        !s[order[k] as int],
    decreases k,
{
    let b = order[k] as int;
    if s[b] {
        assert(has_parent(parents, b));
        let l = choose|l: int| 0 <= l < k && order[l] == parents[b];
        lemma_prefix_outside(parents, order, s, l);
    }
}

proof fn lemma_count_all(s: Seq<bool>)
    requires
        forall|j: int| 0 <= j < s.len() ==> s[j],
    ensures
        count_true(s) == s.len(),
    decreases s.len(),
{
    if s.len() > 0 {
        lemma_count_all(s.drop_last());
    }
}

proof fn lemma_count_none(s: Seq<bool>)
    requires
        forall|j: int| 0 <= j < s.len() ==> !s[j],
    ensures
        count_true(s) == 0,
    decreases s.len(),
{
    if s.len() > 0 {
        lemma_count_none(s.drop_last());
    }
}

/// Number of `true` entries of `s`.
pub open spec fn count_true(s: Seq<bool>) -> nat
    decreases s.len(),
{
    if s.len() == 0 {
        0
    } else {
        count_true(s.drop_last()) + if s.last() { 1nat } else { 0nat }
    }
}

proof fn lemma_count_below(s: Seq<bool>, j: int)
    requires
        0 <= j < s.len(),
        !s[j],
    ensures
        count_true(s) < s.len(),
    decreases s.len(),
{
    if j < s.len() - 1 {
        lemma_count_below(s.drop_last(), j);
    } else {
        lemma_count_at_most(s.drop_last());
    }
}

proof fn lemma_count_at_most(s: Seq<bool>)
    ensures
        count_true(s) <= s.len(),
    decreases s.len(),
{
    if s.len() > 0 {
        lemma_count_at_most(s.drop_last());
    }
}

proof fn lemma_count_set(s: Seq<bool>, j: int)
    requires
        0 <= j < s.len(),
        !s[j],
    ensures
        count_true(s.update(j, true)) == count_true(s) + 1,
    decreases s.len(),
{
    let t = s.update(j, true);
    if j == s.len() - 1 {
        assert(t.drop_last() =~= s.drop_last());
    } else {
        assert(t.drop_last() =~= s.drop_last().update(j, true));
        lemma_count_set(s.drop_last(), j);
    }
}

} // verus!
