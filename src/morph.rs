//! Morph-graph expansion: which morphs a morph applies, once group and
//! flip morphs are unfolded. Recursion is cut at depth 16, and a group
//! entry that names its own group or no morph is skipped, so cyclic groups
//! expand to a finite list.
use vstd::prelude::*;

verus! {

/// Kind of a morph's payload.
#[derive(Clone, Copy, Debug, PartialEq, Eq)]
pub enum MorphKind {
    Vertex,
    Bone,
    Uv,
    AdditionalUv1,
    AdditionalUv2,
    AdditionalUv3,
    AdditionalUv4,
    Material,
    Group,
    Flip,
    Impulse,
}

/// Deepest level at which a morph is still applied.
pub const MAX_MORPH_DEPTH: u32 = 16;

pub open spec fn is_group(k: MorphKind) -> bool {
    k is Group || k is Flip
}

impl MorphKind {
    /// Whether applying a morph of this kind applies the morphs it names.
    pub fn expands(&self) -> (r: bool)
        ensures
            r == is_group(*self),
    {
        match self {
            MorphKind::Group | MorphKind::Flip => true,
            _ => false,
        }
    }
}

/// One morph to apply: `path` lists, from the expanded morph down, the
/// entry taken in each group; the applied weight is the root weight times
/// the influences of those entries.
#[derive(Clone, Debug)]
pub struct MorphVisit {
    pub morph_index: usize,
    pub path: Vec<usize>,
}

pub open spec fn visits_view(s: Seq<MorphVisit>) -> Seq<(usize, Seq<usize>)> {
    s.map_values(|v: MorphVisit| (v.morph_index, v.path@))
}

/// The group entry `t` of morph `m` names another morph.
pub open spec fn entry_followed(n: int, m: int, t: i32) -> bool {
    0 <= t < n && t != m
}

/// Morphs applied when morph `m` is reached at `depth` along `path`.
pub open spec fn expansion(
    kinds: Seq<MorphKind>,
    targets: Seq<Seq<i32>>,
    m: int,
    depth: int,
    path: Seq<usize>,
) -> Seq<(usize, Seq<usize>)>
    decreases 17 - depth, targets[m].len() + 1,
{
    if depth < 0 || depth > 16 || m < 0 || m >= kinds.len() {
        seq![]
    } else if !is_group(kinds[m]) {
        seq![(m as usize, path)]
    } else {
        entries_expansion(kinds, targets, m, depth, path, targets[m].len() as int)
    }
}

/// Morphs applied through the first `j` entries of group `m`.
pub open spec fn entries_expansion(
    kinds: Seq<MorphKind>,
    targets: Seq<Seq<i32>>,
    m: int,
    depth: int,
    path: Seq<usize>,
    j: int,
) -> Seq<(usize, Seq<usize>)>
    decreases 17 - depth, j,
{
    if j <= 0 || depth < 0 || depth > 16 || j > targets[m].len() {
        seq![]
    } else {
        let before = entries_expansion(kinds, targets, m, depth, path, j - 1);
        let t = targets[m][j - 1];
        if entry_followed(kinds.len() as int, m, t) {
            before + expansion(kinds, targets, t as int, depth + 1, path.push((j - 1) as usize))
        } else {
            before
        }
    }
}

pub open spec fn targets_view(targets: Seq<Vec<i32>>) -> Seq<Seq<i32>> {
    targets.map_values(|v: Vec<i32>| v@)
}

fn copy_path(p: &Vec<usize>) -> (r: Vec<usize>)
    ensures
        r@ == p@,
{
    let mut r: Vec<usize> = Vec::new();
    let mut i: usize = 0;
    while i < p.len()
        invariant
            i <= p@.len(),
            r@ == p@.subrange(0, i as int),
        decreases p@.len() - i,
    {
        r.push(p[i]);
        i = i + 1;
        assert(r@ =~= p@.subrange(0, i as int));
    }
    assert(r@ =~= p@);
    r
}

fn expand_into(
    kinds: &Vec<MorphKind>,
    targets: &Vec<Vec<i32>>,
    m: usize,
    depth: u32,
    path: &mut Vec<usize>,
    out: &mut Vec<MorphVisit>,
)
    requires
        targets@.len() == kinds@.len(),
        m < kinds@.len(),
        depth <= 17,
    ensures
        final(path)@ == old(path)@,
        visits_view(final(out)@) == visits_view(old(out)@) + expansion(
            kinds@,
            targets_view(targets@),
            m as int,
            depth as int,
            old(path)@,
        ),
    decreases 17 - depth,
{
    let ghost tv = targets_view(targets@);
    let ghost out0 = visits_view(out@);
    if depth > MAX_MORPH_DEPTH {
        assert(visits_view(out@) =~= out0 + seq![]);
        return;
    }
    if !kinds[m].expands() {
        let v = MorphVisit { morph_index: m, path: copy_path(path) };
        out.push(v);
        assert(visits_view(out@) =~= out0 + seq![(m, path@)]);
        return;
    }
    let entries = &targets[m];
    assert(entries@ == tv[m as int]);
    let mut j: usize = 0;
    assert(visits_view(out@) =~= out0 + entries_expansion(kinds@, tv, m as int, depth as int, path@, 0));
    while j < entries.len()
        invariant
            targets@.len() == kinds@.len(),
            tv == targets_view(targets@),
            m < kinds@.len(),
            depth <= 16,
            is_group(kinds@[m as int]),
            entries@ == tv[m as int],
            j <= entries@.len(),
            path@ == old(path)@,
            visits_view(out@) == out0 + entries_expansion(kinds@, tv, m as int, depth as int, path@, j as int),
        decreases entries@.len() - j,
    {
        let t = entries[j];
        let ghost p0 = path@;
        let ghost before = visits_view(out@);
        if t >= 0 && (t as usize) < kinds.len() && t as usize != m {
            path.push(j);
            expand_into(kinds, targets, t as usize, depth + 1, path, out);
            path.pop();
            assert(path@ =~= p0);
            assert(visits_view(out@) =~= out0 + entries_expansion(kinds@, tv, m as int, depth as int, p0, j + 1));
        } else {
            assert(visits_view(out@) =~= out0 + entries_expansion(kinds@, tv, m as int, depth as int, p0, j + 1));
        }
        j = j + 1;
    }
    assert(visits_view(out@) == out0 + expansion(kinds@, tv, m as int, depth as int, path@));
}

/// The morphs applied when morph `root` is applied: a non-group morph
/// yields itself; a group or flip morph yields, entry by entry, what each
/// named morph yields one level deeper, down to depth 16.
pub fn expand_morph(kinds: &Vec<MorphKind>, targets: &Vec<Vec<i32>>, root: usize) -> (r: Vec<MorphVisit>)
    requires
        targets@.len() == kinds@.len(),
    ensures
        visits_view(r@) == expansion(kinds@, targets_view(targets@), root as int, 0, seq![]),
{
    let mut out: Vec<MorphVisit> = Vec::new();
    if root >= kinds.len() {
        assert(visits_view(out@) =~= seq![]);
        return out;
    }
    let mut path: Vec<usize> = Vec::new();
    expand_into(kinds, targets, root, 0, &mut path, &mut out);
    assert(visits_view(out@) =~= seq![] + expansion(kinds@, targets_view(targets@), root as int, 0, seq![]));
    out
}

pub open spec fn is_uv_kind(k: MorphKind) -> bool {
    k is Uv || k is AdditionalUv1
}

/// Indices of the morphs whose UV offsets are applied (`Uv` and
/// `AdditionalUv1`), in order: the rows of the dense UV buffer.
pub fn uv_morph_indices(kinds: &Vec<MorphKind>) -> (r: Vec<usize>)
    ensures
        r@.len() <= kinds@.len(),
        forall|k: int, l: int| 0 <= k < l < r@.len() ==> r@[k] < r@[l],
        forall|i: int| 0 <= i < kinds@.len() ==> (is_uv_kind(kinds@[i]) <==> exists|k: int|
            0 <= k < r@.len() && r@[k] == i),
        forall|k: int| 0 <= k < r@.len() ==> r@[k] < kinds@.len(),
{
    let mut out: Vec<usize> = Vec::new();
    let mut i: usize = 0;
    while i < kinds.len()
        invariant
            i <= kinds@.len(),
            out@.len() <= i,
            forall|k: int, l: int| 0 <= k < l < out@.len() ==> out@[k] < out@[l],
            forall|k: int| 0 <= k < out@.len() ==> out@[k] < i,
            forall|j: int| 0 <= j < i ==> (is_uv_kind(kinds@[j]) <==> exists|k: int|
                0 <= k < out@.len() && out@[k] == j),
        decreases kinds@.len() - i,
    {
        let uv = match kinds[i] {
            MorphKind::Uv | MorphKind::AdditionalUv1 => true,
            _ => false,
        };
        let ghost o = out@;
        if uv {
            out.push(i);
        }
        proof {
            assert forall|j: int| 0 <= j <= i implies (is_uv_kind(kinds@[j]) <==> exists|k: int|
                0 <= k < out@.len() && out@[k] == j) by {
                if j < i {
                    if exists|k: int| 0 <= k < out@.len() && out@[k] == j {
                        let k = choose|k: int| 0 <= k < out@.len() && out@[k] == j;
                        assert(k < o.len() && o[k] == j);
                    }
                    if exists|k: int| 0 <= k < o.len() && o[k] == j {
                        let k = choose|k: int| 0 <= k < o.len() && o[k] == j;
                        assert(out@[k] == j);
                    }
                } else if uv {
                    assert(out@[o.len() as int] == j);
                } else {
                    if exists|k: int| 0 <= k < out@.len() && out@[k] == j {
                        let k = choose|k: int| 0 <= k < out@.len() && out@[k] == j;
                    }
                }
            }
        }
        i = i + 1;
    }
    out
}

/// Position of the `(u, v)` offset of vertex `vertex` in row `row` of the
/// dense UV buffer (rows of `vertex_count * 2` floats); `None` when the
/// vertex is past the buffer or the position does not fit in `usize`.
pub fn uv_offset_slot(row: usize, vertex_count: usize, vertex: usize) -> (r: Option<usize>)
    ensures
        match r {
            Some(p) => vertex < vertex_count && p as int == (row * vertex_count + vertex) * 2,
            None => vertex >= vertex_count || (row * vertex_count + vertex) * 2 + 1 > usize::MAX,
        },
{
    if vertex >= vertex_count {
        return None;
    }
    let a = match row.checked_mul(vertex_count) {
        Some(v) => v,
        None => {
            return None;
        },
    };
    let b = match a.checked_add(vertex) {
        Some(v) => v,
        None => {
            return None;
        },
    };
    if b > (usize::MAX - 1) / 2 {
        return None;
    }
    Some(b * 2)
}

/// The material results that an offset for `material_index` addresses:
/// all `count` of them when the index is negative, else that one result
/// when it exists.
pub fn material_targets(material_index: i32, count: usize) -> (r: Vec<usize>)
    ensures
        material_index < 0 ==> r@.len() == count && forall|k: int| 0 <= k < count ==> r@[k] == k,
        0 <= material_index < count ==> r@ == seq![material_index as usize],
        material_index >= count ==> r@.len() == 0,
{
    let mut out: Vec<usize> = Vec::new();
    if material_index < 0 {
        let mut k: usize = 0;
        while k < count
            invariant
                k <= count,
                out@.len() == k,
                forall|j: int| 0 <= j < k ==> out@[j] == j,
            decreases count - k,
        {
            out.push(k);
            k = k + 1;
        }
    } else if (material_index as usize) < count {
        out.push(material_index as usize);
        assert(out@ =~= seq![material_index as usize]);
    }
    out
}

proof fn lemma_expansion_paths(
    kinds: Seq<MorphKind>,
    targets: Seq<Seq<i32>>,
    m: int,
    depth: int,
    path: Seq<usize>,
)
    ensures
        forall|i: int| 0 <= i < expansion(kinds, targets, m, depth, path).len() ==>
            (#[trigger] expansion(kinds, targets, m, depth, path)[i]).1.len() <= path.len() + 16 - depth,
    decreases 17 - depth, targets[m].len() + 1,
{
    let e = expansion(kinds, targets, m, depth, path);
    if depth < 0 || depth > 16 || m < 0 || m >= kinds.len() {
        assert(e.len() == 0);
    } else if !is_group(kinds[m]) {
        assert(e == seq![(m as usize, path)]);
        assert forall|i: int| 0 <= i < e.len() implies (#[trigger] e[i]).1.len() <= path.len() + 16 - depth by {
            assert(e[i] == (m as usize, path));
        }
    } else {
        lemma_entries_paths(kinds, targets, m, depth, path, targets[m].len() as int);
        assert(e == entries_expansion(kinds, targets, m, depth, path, targets[m].len() as int));
    }
}

proof fn lemma_entries_paths(
    kinds: Seq<MorphKind>,
    targets: Seq<Seq<i32>>,
    m: int,
    depth: int,
    path: Seq<usize>,
    j: int,
)
    ensures
        forall|i: int| 0 <= i < entries_expansion(kinds, targets, m, depth, path, j).len() ==>
            (#[trigger] entries_expansion(kinds, targets, m, depth, path, j)[i]).1.len() <= path.len() + 16 - depth,
    decreases 17 - depth, j,
{
    if j <= 0 || depth < 0 || depth > 16 || j > targets[m].len() {
    } else {
        let before = entries_expansion(kinds, targets, m, depth, path, j - 1);
        lemma_entries_paths(kinds, targets, m, depth, path, j - 1);
        let t = targets[m][j - 1];
        if entry_followed(kinds.len() as int, m, t) {
            let p2 = path.push((j - 1) as usize);
            let sub = expansion(kinds, targets, t as int, depth + 1, p2);
            lemma_expansion_paths(kinds, targets, t as int, depth + 1, p2);
            let all = entries_expansion(kinds, targets, m, depth, path, j);
            assert(all == before + sub);
            assert forall|i: int| 0 <= i < all.len() implies (#[trigger] all[i]).1.len() <= path.len() + 16 - depth by {
                if i < before.len() {
                    assert(all[i] == before[i]);
                } else {
                    assert(all[i] == sub[i - before.len()]);
                }
            }
        }
    }
}

/// Expansion is bounded whatever cycles the groups form: every morph that
/// applying morph `m` applies is reached through at most 16 group entries.
pub proof fn lemma_expansion_depth_bounded(kinds: Seq<MorphKind>, targets: Seq<Seq<i32>>, m: int)
    ensures
        forall|i: int| 0 <= i < expansion(kinds, targets, m, 0, seq![]).len() ==>
            (#[trigger] expansion(kinds, targets, m, 0, seq![])[i]).1.len() <= 16,
{
    lemma_expansion_paths(kinds, targets, m, 0, seq![]);
}

} // verus!
