use popback::params::ParamTransfer;

#[test]
fn fresh_transfer_is_silent() {
    let mut t = ParamTransfer::new(4);
    assert_eq!(t.len(), 4);
    for i in 0..4 {
        assert_eq!(t.get(i), 0);
    }
    assert!(t.drain_all().is_empty());
}

#[test]
fn set_then_drain_returns_entry() {
    let mut t = ParamTransfer::new(4);
    t.set(2, 0.75f32.to_bits());
    let pending = t.drain_all();
    assert_eq!(pending, vec![(2, 0.75f32.to_bits())]);
}

#[test]
fn writes_to_same_slot_coalesce() {
    // Many writes to one slot before a drain yield exactly one entry,
    // carrying the last written value.
    let mut t = ParamTransfer::new(4);
    for step in 0..50u32 {
        t.set(1, f32::to_bits(step as f32 / 50.0));
    }
    let pending = t.drain_all();
    assert_eq!(pending.len(), 1);
    assert_eq!(pending[0], (1, f32::to_bits(49.0 / 50.0)));
}

#[test]
fn drain_twice_returns_nothing_the_second_time() {
    let mut t = ParamTransfer::new(4);
    t.set(0, 1);
    t.set(3, 2);
    let first = t.drain_all();
    assert_eq!(first.len(), 2);
    let second = t.drain_all();
    assert!(second.is_empty());
}

#[test]
fn drain_is_ascending_and_complete() {
    let mut t = ParamTransfer::new(8);
    t.set(5, 50);
    t.set(1, 10);
    t.set(7, 70);
    t.set(3, 30);
    let pending = t.drain_all();
    assert_eq!(pending, vec![(1, 10), (3, 30), (5, 50), (7, 70)]);
}

#[test]
fn values_survive_a_drain() {
    let mut t = ParamTransfer::new(2);
    t.set(0, 11);
    t.drain_all();
    assert_eq!(t.get(0), 11);
}

#[test]
fn unknown_slot_is_ignored() {
    let mut t = ParamTransfer::new(2);
    t.set(9, 1234);
    assert_eq!(t.get(9), 0);
    assert!(t.drain_all().is_empty());
}

#[test]
fn empty_transfer_has_no_slots() {
    let mut t = ParamTransfer::new(0);
    assert_eq!(t.len(), 0);
    t.set(0, 1);
    assert!(t.drain_all().is_empty());
}
