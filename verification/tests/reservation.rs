use smart_road::reservation::{slots_from_samples, ReservationTable, TileKey};

#[test]
fn empty_table() {
    let t = ReservationTable::new();
    assert_eq!(t.len(), 0);
    assert_eq!(t.owner((0, 0, 0)), None);
}

#[test]
fn request_grants_free_slots() {
    let mut t = ReservationTable::new();
    let slots: Vec<TileKey> = vec![(1, 2, 10), (1, 2, 11), (2, 2, 11)];
    assert!(t.request(5, &slots));
    assert_eq!(t.len(), 3);
    for k in &slots {
        assert_eq!(t.owner(*k), Some(5));
    }
}

#[test]
fn conflicting_request_is_refused_and_changes_nothing() {
    let mut t = ReservationTable::new();
    assert!(t.request(1, &vec![(3, 3, 5), (3, 4, 5)]));
    assert!(!t.request(2, &vec![(0, 0, 5), (3, 4, 5)]));
    assert_eq!(t.len(), 2);
    assert_eq!(t.owner((0, 0, 5)), None);
    assert_eq!(t.owner((3, 4, 5)), Some(1));
}

#[test]
fn same_tile_other_slot_is_no_conflict() {
    let mut t = ReservationTable::new();
    assert!(t.request(1, &vec![(3, 3, 5)]));
    assert!(t.request(2, &vec![(3, 3, 6)]));
    assert_eq!(t.owner((3, 3, 5)), Some(1));
    assert_eq!(t.owner((3, 3, 6)), Some(2));
}

#[test]
fn repeated_request_by_the_holder_succeeds() {
    let mut t = ReservationTable::new();
    let slots: Vec<TileKey> = vec![(1, 1, 1), (1, 1, 2)];
    assert!(t.request(9, &slots));
    assert!(t.request(9, &slots));
    assert_eq!(t.len(), 2);
    assert!(t.request(9, &vec![(1, 1, 2), (1, 1, 3)]));
    assert_eq!(t.len(), 3);
}

#[test]
fn release_frees_only_the_vehicles_slots() {
    let mut t = ReservationTable::new();
    assert!(t.request(1, &vec![(0, 0, 1), (0, 1, 1)]));
    assert!(t.request(2, &vec![(5, 5, 1)]));
    t.release(1);
    assert_eq!(t.len(), 1);
    assert_eq!(t.owner((0, 0, 1)), None);
    assert_eq!(t.owner((5, 5, 1)), Some(2));
    assert!(t.request(3, &vec![(0, 0, 1), (0, 1, 1)]));
    t.release(42);
    assert_eq!(t.len(), 3);
}

#[test]
fn cleanup_drops_stale_slots() {
    let mut t = ReservationTable::new();
    assert!(t.request(1, &vec![(0, 0, 5), (0, 0, 9), (0, 0, 10), (0, 0, 20)]));
    t.cleanup(10);
    assert_eq!(t.owner((0, 0, 5)), None);
    assert_eq!(t.owner((0, 0, 9)), None);
    assert_eq!(t.owner((0, 0, 10)), Some(1));
    assert_eq!(t.owner((0, 0, 20)), Some(1));
    t.cleanup(2);
    assert_eq!(t.len(), 2);
    t.cleanup(0);
    assert_eq!(t.len(), 2);
    t.cleanup(21);
    assert_eq!(t.len(), 0);
    assert!(t.request(1, &vec![(0, 0, u32::MAX)]));
    t.cleanup(u32::MAX);
    assert_eq!(t.owner((0, 0, u32::MAX)), Some(1));
}

#[test]
fn reserved_near_the_current_slot() {
    let mut t = ReservationTable::new();
    assert!(t.request(1, &vec![(0, 0, 7), (1, 0, 8), (2, 0, 10), (3, 0, 12), (4, 0, 13), (5, 0, 1)]));
    let mut near = t.reserved_near(10);
    near.sort();
    assert_eq!(near, vec![(1, 0, 8), (2, 0, 10), (3, 0, 12)]);
    let mut near = t.reserved_near(0);
    near.sort();
    assert_eq!(near, vec![(5, 0, 1)]);
}

#[test]
fn slots_bound_check() {
    let mut t = ReservationTable::new();
    assert!(t.slots_at_most(0));
    assert!(t.request(1, &vec![(0, 0, 7), (1, 0, 9)]));
    assert!(t.slots_at_most(9));
    assert!(!t.slots_at_most(8));
}

#[test]
fn samples_become_buffered_slots_once_each() {
    let samples = vec![(0, 0, 3), (0, 0, 3), (0, 0, 4), (1, 0, 4)];
    assert_eq!(
        slots_from_samples(&samples),
        vec![(0, 0, 3), (0, 0, 4), (0, 0, 5), (1, 0, 4), (1, 0, 5)]
    );
}

#[test]
fn off_grid_samples_are_skipped() {
    let samples = vec![(-1, 0, 1), (0, -1, 1), (12, 0, 1), (0, 12, 1), (11, 11, 2)];
    assert_eq!(slots_from_samples(&samples), vec![(11, 11, 2), (11, 11, 3)]);
    assert_eq!(slots_from_samples(&vec![]), Vec::<TileKey>::new());
}

#[test]
fn request_of_sampled_path_then_conflict() {
    let mut t = ReservationTable::new();
    let a = slots_from_samples(&vec![(5, 5, 10), (5, 6, 10)]);
    let b = slots_from_samples(&vec![(5, 6, 11)]);
    assert!(t.request(1, &a));
    assert!(!t.request(2, &b));
    t.release(1);
    assert!(t.request(2, &b));
}

#[test]
fn cleanup_twice_and_release_in_either_order() {
    let slots: Vec<TileKey> = vec![(0, 0, 2), (0, 0, 9), (1, 1, 3)];
    let mut a = ReservationTable::new();
    assert!(a.request(1, &slots));
    assert!(a.request(2, &vec![(2, 2, 2), (2, 2, 12)]));
    let mut b = ReservationTable::new();
    assert!(b.request(1, &slots));
    assert!(b.request(2, &vec![(2, 2, 2), (2, 2, 12)]));
    a.cleanup(7);
    a.cleanup(7);
    a.release(2);
    b.release(2);
    b.cleanup(7);
    let mut ka = a.reserved_near(9);
    let mut kb = b.reserved_near(9);
    ka.sort();
    kb.sort();
    assert_eq!(ka, kb);
    assert_eq!(a.len(), b.len());
    assert_eq!(a.len(), 1);
    assert_eq!(a.owner((0, 0, 9)), Some(1));
}

#[test]
fn release_undoes_request() {
    let mut t = ReservationTable::new();
    assert!(t.request(1, &vec![(4, 4, 4)]));
    assert!(t.request(2, &vec![(5, 5, 5), (6, 6, 6)]));
    t.release(2);
    assert_eq!(t.len(), 1);
    assert_eq!(t.owner((4, 4, 4)), Some(1));
}
