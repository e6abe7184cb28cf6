use subnet_scan::address::{Family, HostAddress};
use subnet_scan::budget::ConcurrencyBudget;

#[test]
fn new_budget_holds_nothing() {
    let b = ConcurrencyBudget::new(3);
    assert_eq!(b.capacity(), 3);
    assert_eq!(b.held(), 0);
    assert!(b.has_room());
}

#[test]
fn acquire_stops_at_the_capacity() {
    let mut b = ConcurrencyBudget::new(2);
    assert!(b.try_acquire());
    assert!(b.try_acquire());
    assert!(!b.has_room());
    assert!(!b.try_acquire());
    assert_eq!(b.held(), 2);
}

#[test]
fn release_frees_a_unit_for_the_next_acquire() {
    let mut b = ConcurrencyBudget::new(1);
    assert!(b.try_acquire());
    assert!(!b.try_acquire());
    assert!(b.release());
    assert_eq!(b.held(), 0);
    assert!(b.try_acquire());
}

#[test]
fn release_of_nothing_changes_nothing() {
    let mut b = ConcurrencyBudget::new(4);
    assert!(!b.release());
    assert_eq!(b.held(), 0);
    assert_eq!(b.capacity(), 4);
}

#[test]
fn empty_budget_admits_nothing() {
    let mut b = ConcurrencyBudget::new(0);
    assert!(!b.has_room());
    assert!(!b.try_acquire());
    assert_eq!(b.held(), 0);
}

#[test]
fn held_units_stay_within_the_capacity() {
    let mut b = ConcurrencyBudget::new(5);
    for round in 0..40u32 {
        if round % 3 == 2 {
            b.release();
        } else {
            b.try_acquire();
        }
        assert!(b.held() <= b.capacity());
    }
}

#[test]
fn families_have_32_and_128_bits() {
    assert_eq!(Family::V4.bits(), 32);
    assert_eq!(Family::V6.bits(), 128);
    assert_eq!(Family::V4.last_address(), 0xffff_ffff);
    assert_eq!(Family::V6.last_address(), u128::MAX);
}

#[test]
fn address_must_fit_its_family() {
    assert!(HostAddress::v4(u32::MAX).is_valid());
    assert!(HostAddress::v6(u128::MAX).is_valid());
    assert!(!HostAddress { family: Family::V4, bits: 1 << 32 }.is_valid());
    assert_eq!(HostAddress::v4(7), HostAddress { family: Family::V4, bits: 7 });
    assert_ne!(HostAddress::v4(7), HostAddress::v6(7));
}
