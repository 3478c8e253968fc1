use lumina::utils::{align_down, align_up, hash_string, next_power_of_two, BitSet, Id};

#[test]
fn next_power_of_two_values() {
    assert_eq!(next_power_of_two(0), 1);
    assert_eq!(next_power_of_two(1), 1);
    assert_eq!(next_power_of_two(2), 2);
    assert_eq!(next_power_of_two(3), 4);
    assert_eq!(next_power_of_two(17), 32);
    assert_eq!(next_power_of_two(64), 64);
    assert_eq!(next_power_of_two(0x8000_0000), 0x8000_0000);
}

#[test]
fn alignment_values() {
    assert_eq!(align_up(13, 8), 16);
    assert_eq!(align_up(16, 8), 16);
    assert_eq!(align_up(0, 4096), 0);
    assert_eq!(align_down(13, 8), 8);
    assert_eq!(align_down(16, 8), 16);
    assert_eq!(align_down(4095, 4096), 0);
}

#[test]
fn ids_round_trip_and_fresh_ids_carry_the_variant_bits() {
    assert_eq!(Id::from_u64(42).as_u64(), 42);
    let id = Id::new();
    assert_eq!(id.as_u64() >> 62, 2);
    assert_ne!(Id::new(), Id::new());
}

#[test]
fn string_hash_is_deterministic() {
    assert_eq!(hash_string("player"), hash_string("player"));
    assert_ne!(hash_string("player"), hash_string("enemy"));
}

#[test]
fn bitset_set_get_clear_toggle() {
    let mut b = BitSet::new();
    assert!(b.is_empty());
    b.set(70);
    assert_eq!(b.len(), 71);
    assert!(b.get(70));
    assert!(!b.get(69));
    b.toggle(3);
    assert!(b.get(3));
    b.toggle(3);
    assert!(!b.get(3));
    b.clear(70);
    assert!(!b.get(70));
    b.clear(500);
    assert_eq!(b.len(), 71);
    assert!(!b.get(1000));
}

#[test]
fn bitset_iter_and_clear_all() {
    let mut b = BitSet::with_capacity(130);
    assert_eq!(b.len(), 130);
    b.set(0);
    b.set(64);
    b.set(129);
    assert_eq!(b.iter_set_bits(), vec![0, 64, 129]);
    b.clear_all();
    assert!(b.iter_set_bits().is_empty());
    assert_eq!(b.len(), 130);
}

#[test]
fn bitset_shrink_keeps_bits_of_kept_words() {
    let mut b = BitSet::new();
    b.set(10);
    b.resize(5);
    assert!(!b.get(10));
    b.resize(20);
    assert!(b.get(10));
    b.resize(0);
    b.resize(20);
    assert!(!b.get(10));
}
