use cc_alloc::Stash;

#[test]
fn put_mints_consecutive_indices() {
    let mut s = Stash::new();
    assert_eq!(s.put(), Some(0));
    assert_eq!(s.put(), Some(1));
    assert_eq!(s.put(), Some(2));
}

#[test]
fn take_frees_and_reports_occupancy() {
    let mut s = Stash::new();
    s.put();
    s.put();
    assert!(s.take(0));
    assert!(!s.take(0));
    assert!(!s.take(7));
    assert!(s.take(1));
}

#[test]
fn freed_indices_are_reused_most_recent_first() {
    let mut s = Stash::new();
    s.put();
    s.put();
    s.put();
    assert!(s.take(0));
    assert!(s.take(2));
    assert_eq!(s.put(), Some(2));
    assert_eq!(s.put(), Some(0));
    assert_eq!(s.put(), Some(3));
}

#[test]
fn parts_round_trip() {
    let mut s = Stash::new();
    s.put();
    s.put();
    s.put();
    s.take(1);
    let occupancy = s.occupancy();
    let free = s.free_stack();
    assert_eq!(occupancy, vec![true, false, true]);
    assert_eq!(free, vec![1]);
    let mut rebuilt = Stash::from_parts(occupancy, free).unwrap();
    assert_eq!(rebuilt.put(), Some(1));
    assert_eq!(rebuilt.put(), Some(3));
}

#[test]
fn from_parts_accepts_admissible_states() {
    assert!(Stash::from_parts(Vec::new(), Vec::new()).is_some());
    assert!(Stash::from_parts(vec![true, true], Vec::new()).is_some());
    assert!(Stash::from_parts(vec![true, false], vec![1]).is_some());
}

#[test]
fn from_parts_rejects_out_of_range_free_index() {
    assert!(Stash::from_parts(vec![true, false], vec![2]).is_none());
}

#[test]
fn from_parts_rejects_free_index_marked_occupied() {
    assert!(Stash::from_parts(vec![true, false], vec![0]).is_none());
}

#[test]
fn from_parts_rejects_duplicate_free_index() {
    assert!(Stash::from_parts(vec![true, false], vec![1, 1]).is_none());
}

#[test]
fn from_parts_rejects_unlisted_vacancy() {
    assert!(Stash::from_parts(vec![false, true], Vec::new()).is_none());
}
