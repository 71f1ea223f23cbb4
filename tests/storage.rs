use hibitset::BitSet;
use idvstorage::{IDVStorage, InterleavedGroup};

fn filled(ids: &[usize]) -> IDVStorage<u64> {
    let mut s = IDVStorage::new();
    for &id in ids {
        s.c_insert(id, id as u64 * 10);
    }
    s
}

#[test]
fn blank_group_is_empty() {
    let g: InterleavedGroup<u64> = InterleavedGroup::blank();
    assert_eq!(g.redirects, [0, 0, 0, 0]);
    assert!(g.data.is_none());
}

#[test]
fn default_store_is_empty() {
    let s: IDVStorage<u64> = IDVStorage::default();
    assert_eq!(s.group_count(), 0);
}

#[test]
fn round_trip() {
    for id in [0usize, 1, 3, 4, 7, 42, 999] {
        let mut s: IDVStorage<String> = IDVStorage::new();
        s.c_insert(id, format!("v{}", id));
        assert_eq!(s.c_get(id), Some(&format!("v{}", id)));
    }
}

#[test]
fn round_trip_through_host_operations() {
    let mut s: IDVStorage<u64> = IDVStorage::new();
    s.insert(9, 90);
    s.insert(2, 20);
    assert_eq!(*s.get(9), 90);
    assert_eq!(*s.get(2), 20);
    *s.get_mut(9) += 1;
    assert_eq!(*s.get(9), 91);
    assert_eq!(s.remove(2), 20);
    assert_eq!(s.c_get(2), None);
}

#[test]
fn remove_clears_presence() {
    let mut s: IDVStorage<u64> = IDVStorage::new();
    s.c_insert(6, 1);
    assert_eq!(s.c_remove(6), Some(1));
    assert_eq!(s.c_get(6), None);
    let internal = s.resolve_to_internal(6);
    assert_eq!(s.cell(internal), None);
    s.c_insert(6, 2);
    assert_eq!(s.c_get(6), Some(&2));
}

#[test]
fn sparse_growth() {
    let mut s: IDVStorage<u64> = IDVStorage::new();
    s.c_insert(1000, 5);
    assert!(s.group_count() >= (1001 + 3) / 4);
    assert_eq!(s.group_count(), 251);
    assert_eq!(s.c_get(1000), Some(&5));
    assert_eq!(s.resolve_to_internal(1000), 0);
}

#[test]
fn slot_reuse() {
    let mut s: IDVStorage<char> = IDVStorage::new();
    s.c_insert(0, 'a');
    let before = s.group_count();
    assert_eq!(s.c_remove(0), Some('a'));
    s.c_insert(1, 'b');
    assert_eq!(s.group_count(), before);
    assert_eq!(s.resolve_to_internal(1), 0);
    assert_eq!(s.c_get(1), Some(&'b'));
}

#[test]
fn double_insert_leaks_first_cell() {
    let mut s: IDVStorage<char> = IDVStorage::new();
    s.c_insert(5, 'a');
    let first = s.resolve_to_internal(5);
    let len_after_first = s.group_count();
    s.c_insert(5, 'b');
    let second = s.resolve_to_internal(5);
    assert_eq!(s.c_get(5), Some(&'b'));
    assert!(s.group_count() >= len_after_first);
    assert_ne!(first, second);
    assert_eq!(s.cell(first), Some(&'a'));
    // the orphaned cell is never chosen by the free scan
    s.c_insert(9, 'c');
    assert_ne!(s.resolve_to_internal(9), first);
    assert_eq!(s.cell(first), Some(&'a'));
}

#[test]
fn cleanup_uses_reconstructed_identifier() {
    let mut s = filled(&[0, 1, 2, 3, 4, 5]);
    let mut live = BitSet::new();
    live.add(1);
    live.add(3);
    live.add(5);
    s.c_clean(live);
    assert_eq!(s.c_get(1), Some(&10));
    assert_eq!(s.c_get(3), Some(&30));
    assert_eq!(s.c_get(5), Some(&50));
    assert_eq!(s.c_get(0), None);
    assert_eq!(s.c_get(2), None);
    assert_eq!(s.c_get(4), None);
}

#[test]
fn cleanup_keeps_live_identifier_zero() {
    // identifiers that were never stored redirect to cell 0 and own nothing;
    // the cell stays because its owner, identifier 0, is alive
    let mut s = filled(&[0, 1]);
    let mut live = BitSet::new();
    live.add(0);
    s.clean(live);
    assert_eq!(s.c_get(0), Some(&0));
    assert_eq!(s.c_get(1), None);
}

#[test]
fn cleanup_with_everything_alive_changes_nothing() {
    let mut s = filled(&[2, 3, 8]);
    let mut live = BitSet::new();
    for id in 0..64u32 {
        live.add(id);
    }
    s.c_clean(live);
    assert_eq!(s.c_get(2), Some(&20));
    assert_eq!(s.c_get(3), Some(&30));
    assert_eq!(s.c_get(8), Some(&80));
}

#[test]
fn cleanup_with_nothing_alive_empties_every_cell() {
    let mut s = filled(&[0, 1, 2, 7]);
    let groups = s.group_count();
    s.c_clean(BitSet::new());
    for pos in 0..groups {
        assert_eq!(s.cell(pos), None);
    }
    assert_eq!(s.group_count(), groups);
}

#[test]
fn prefill_grows_to_capacity_and_never_shrinks() {
    let mut s: IDVStorage<u64> = IDVStorage::new();
    s.check_prefill(3);
    assert_eq!(s.group_count(), 3);
    s.check_prefill(1);
    assert_eq!(s.group_count(), 3);
    s.check_prefill(0);
    assert_eq!(s.group_count(), 3);
}

#[test]
fn find_free_takes_first_empty_cell() {
    let mut s = filled(&[0, 1, 2]);
    assert_eq!(s.group_count(), 3);
    assert_eq!(s.find_free(), 3);
    assert_eq!(s.group_count(), 4);
    assert_eq!(s.c_remove(1), Some(10));
    assert_eq!(s.c_remove(0), Some(0));
    assert_eq!(s.find_free(), 0);
    assert_eq!(s.group_count(), 4);
}

#[test]
fn first_insert_into_empty_store() {
    let mut s: IDVStorage<u64> = IDVStorage::new();
    s.c_insert(0, 11);
    assert_eq!(s.group_count(), 1);
    assert_eq!(s.resolve_to_internal(0), 0);
    s.c_insert(4, 12);
    assert_eq!(s.group_count(), 2);
    assert_eq!(s.resolve_to_internal(4), 1);
}

#[test]
fn get_mut_changes_only_its_cell() {
    let mut s = filled(&[1, 2]);
    if let Some(x) = s.c_get_mut(2) {
        *x = 7;
    }
    assert_eq!(s.c_get(2), Some(&7));
    assert_eq!(s.c_get(1), Some(&10));
}

#[test]
fn lookup_of_removed_identifier_is_absent() {
    let mut s = filled(&[3]);
    assert_eq!(s.c_remove(3), Some(30));
    assert_eq!(s.c_remove(3), None);
    assert!(s.c_get_mut(3).is_none());
}

#[test]
fn cleanup_ignores_redirects_that_own_nothing() {
    // identifier 1 was never stored: its blank redirect names cell 0, but it
    // does not keep the dead identifier 0's value alive
    let mut s = filled(&[0]);
    let mut live = BitSet::new();
    live.add(1);
    s.c_clean(live);
    assert_eq!(s.c_get(0), None);
}

#[test]
fn cleanup_ignores_redirects_left_by_remove() {
    // identifier 2's stale redirect names the cell that identifier 3 now owns
    let mut s = filled(&[2]);
    assert_eq!(s.c_remove(2), Some(20));
    s.c_insert(3, 30);
    assert_eq!(s.resolve_to_internal(2), s.resolve_to_internal(3));
    let mut live = BitSet::new();
    live.add(2);
    s.c_clean(live);
    assert_eq!(s.c_get(3), None);
}

#[test]
fn cleanup_reclaims_orphaned_cell_of_dead_identifier() {
    let mut s: IDVStorage<char> = IDVStorage::new();
    s.c_insert(5, 'a');
    let first = s.resolve_to_internal(5);
    s.c_insert(5, 'b');
    let second = s.resolve_to_internal(5);
    let mut live = BitSet::new();
    live.add(5);
    s.c_clean(live);
    assert_eq!(s.cell(first), Some(&'a'));
    assert_eq!(s.cell(second), Some(&'b'));
    s.c_clean(BitSet::new());
    assert_eq!(s.cell(first), None);
    assert_eq!(s.cell(second), None);
}
