use mmd_engine::morph::{expand_morph, material_targets, uv_morph_indices, uv_offset_slot, MorphKind};
use mmd_engine::skeleton::sort_bones_topologically;

fn position(order: &[usize], b: usize) -> usize {
    order.iter().position(|&x| x == b).unwrap()
}

#[test]
fn bones_sorted_parents_first() {
    let parents = vec![2, -1, 1, 0, 7];
    let order = sort_bones_topologically(&parents).unwrap();
    assert_eq!(order.len(), 5);
    for (b, &p) in parents.iter().enumerate() {
        if p >= 0 && (p as usize) < parents.len() {
            assert!(position(&order, p as usize) < position(&order, b));
        }
    }
    let mut seen = order.clone();
    seen.sort();
    assert_eq!(seen, vec![0, 1, 2, 3, 4]);
}

#[test]
fn bone_cycle_has_no_order() {
    assert_eq!(sort_bones_topologically(&vec![-1, 2, 1]), None);
    assert_eq!(sort_bones_topologically(&vec![0]), None);
    assert_eq!(sort_bones_topologically(&vec![]), Some(vec![]));
}

#[test]
fn group_morph_expands_to_leaves() {
    let kinds = vec![MorphKind::Group, MorphKind::Vertex, MorphKind::Material, MorphKind::Flip];
    let targets = vec![vec![1, 3, 9, -1], vec![], vec![], vec![2]];
    let v = expand_morph(&kinds, &targets, 0);
    let got: Vec<(usize, Vec<usize>)> = v.into_iter().map(|x| (x.morph_index, x.path)).collect();
    assert_eq!(got, vec![(1, vec![0]), (2, vec![1, 0])]);
    let leaf = expand_morph(&kinds, &targets, 2);
    assert_eq!(leaf.len(), 1);
    assert!(leaf[0].path.is_empty());
    assert!(expand_morph(&kinds, &targets, 7).is_empty());
}

#[test]
fn cyclic_group_morphs_stop_at_depth_sixteen() {
    let kinds = vec![MorphKind::Group, MorphKind::Group, MorphKind::Vertex];
    // 0 names itself (skipped), 1 and 2; 1 names 0.
    let targets = vec![vec![0, 1, 2], vec![0], vec![]];
    let v = expand_morph(&kinds, &targets, 0);
    assert!(!v.is_empty());
    assert!(v.iter().all(|x| x.morph_index == 2 && x.path.len() <= 16));
    // leaves reached at depths 0 + 1, 2 + 1, ..., 14 + 1 via 0 -> 1 -> 0 ...
    assert_eq!(v.len(), 8);
    assert_eq!(v.iter().map(|x| x.path.len()).max(), Some(15));
}

#[test]
fn uv_morph_rows_and_slots() {
    let kinds = vec![MorphKind::Vertex, MorphKind::Uv, MorphKind::AdditionalUv2, MorphKind::AdditionalUv1];
    assert_eq!(uv_morph_indices(&kinds), vec![1, 3]);
    assert_eq!(uv_offset_slot(0, 4, 3), Some(6));
    assert_eq!(uv_offset_slot(1, 4, 2), Some(12));
    assert_eq!(uv_offset_slot(1, 4, 4), None);
    assert_eq!(uv_offset_slot(usize::MAX, 2, 0), None);
}

#[test]
fn material_offsets_address_results() {
    assert_eq!(material_targets(-1, 3), vec![0, 1, 2]);
    assert_eq!(material_targets(-5, 2), vec![0, 1]);
    assert_eq!(material_targets(1, 3), vec![1]);
    assert_eq!(material_targets(3, 3), Vec::<usize>::new());
}
