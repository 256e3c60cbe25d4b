use bitset::{BitSet, BitSetError};

#[test]
fn fresh_set_has_no_member_and_add_makes_one() {
    for c in 0..=128u8 {
        for e in 0..c {
            let mut set = BitSet::new(c);
            assert!(matches!(set.has(&e), Ok(false)));
            assert!(matches!(set.add(&e), Ok(())));
            assert!(matches!(set.has(&e), Ok(true)));
            assert_eq!(*set.get_data(), 1u128 << e);
        }
    }
}

#[test]
fn add_then_remove_succeeds_and_takes_the_element_out() {
    for c in 1..=128u8 {
        for e in 0..c {
            let mut set = BitSet::new(c);
            set.add(&0).unwrap();
            set.add(&(c - 1)).unwrap();
            let before = *set.get_data();
            assert!(matches!(set.add(&e), Ok(())));
            assert!(matches!(set.remove(&e), Ok(())));
            assert!(matches!(set.has(&e), Ok(false)));
            assert_eq!(*set.get_data(), before & !(1u128 << e));
        }
    }
}

#[test]
fn remove_of_an_absent_element_fails_and_changes_nothing() {
    let mut set = BitSet::new(6);
    assert!(matches!(set.remove(&1), Err(BitSetError::ElementNotFound)));
    assert_eq!(*set.get_data(), 0);

    set.add(&0).unwrap();
    set.add(&4).unwrap();
    assert!(matches!(set.remove(&3), Err(BitSetError::ElementNotFound)));
    assert_eq!(*set.get_data(), 0b10001);
    assert_eq!(set.size(), 2);
}

#[test]
fn remove_twice_fails_the_second_time() {
    let mut set = BitSet::new(10);
    set.add(&9).unwrap();
    assert!(matches!(set.remove(&9), Ok(())));
    assert!(matches!(set.remove(&9), Err(BitSetError::ElementNotFound)));
    assert_eq!(*set.get_data(), 0);
}

#[test]
fn element_at_or_above_capacity_is_out_of_range() {
    let mut set = BitSet::new(6);
    set.add(&2).unwrap();
    for e in 6..=255u8 {
        assert!(matches!(set.has(&e), Err(BitSetError::OutOfRange)));
        assert!(matches!(set.add(&e), Err(BitSetError::OutOfRange)));
        assert!(matches!(set.remove(&e), Err(BitSetError::OutOfRange)));
    }
    assert_eq!(*set.get_data(), 0b100);
    assert_eq!(set.size(), 1);
}

#[test]
fn has_six_and_add_two_hundred_are_out_of_range() {
    let mut set = BitSet::new(6);
    assert!(matches!(set.has(&6), Err(BitSetError::OutOfRange)));
    assert!(matches!(set.add(&200), Err(BitSetError::OutOfRange)));
}

#[test]
fn element_from_128_on_is_out_of_range_at_full_capacity() {
    let mut set = BitSet::new(128);
    assert!(matches!(set.add(&127), Ok(())));
    for e in 128..=255u8 {
        assert!(matches!(set.has(&e), Err(BitSetError::OutOfRange)));
        assert!(matches!(set.add(&e), Err(BitSetError::OutOfRange)));
        assert!(matches!(set.remove(&e), Err(BitSetError::OutOfRange)));
    }
    assert_eq!(*set.get_data(), 1u128 << 127);
}

#[test]
fn set_of_capacity_zero_admits_nothing() {
    let mut set = BitSet::new(0);
    assert_eq!(set.capacity(), 0);
    assert_eq!(set.size(), 0);
    assert!(matches!(set.has(&0), Err(BitSetError::OutOfRange)));
    assert!(matches!(set.add(&0), Err(BitSetError::OutOfRange)));
    assert!(matches!(set.remove(&0), Err(BitSetError::OutOfRange)));
    assert_eq!(*set.get_data(), 0);
    assert_eq!(set.debug_string(), "[]");
}

#[test]
fn size_follows_the_calls_that_changed_the_set() {
    let mut set = BitSet::new(9);
    assert_eq!(set.size(), 0);
    set.add(&3).unwrap();
    assert_eq!(set.size(), 1);
    set.add(&3).unwrap();
    assert_eq!(set.size(), 1);
    set.add(&8).unwrap();
    assert_eq!(set.size(), 2);
    assert!(set.add(&9).is_err());
    assert_eq!(set.size(), 2);
    assert!(set.remove(&4).is_err());
    assert_eq!(set.size(), 2);
    set.remove(&3).unwrap();
    assert_eq!(set.size(), 1);
    assert!(set.remove(&3).is_err());
    assert_eq!(set.size(), 1);
    set.remove(&8).unwrap();
    assert_eq!(set.size(), 0);
}

#[test]
fn size_of_a_full_set_is_its_capacity() {
    for c in [1u8, 5, 64, 65, 127, 128] {
        let mut set = BitSet::new(c);
        for e in 0..c {
            set.add(&e).unwrap();
        }
        assert_eq!(set.size(), c);
    }
    let mut full = BitSet::new(128);
    for e in 0..128u8 {
        full.add(&e).unwrap();
    }
    assert_eq!(*full.get_data(), u128::MAX);
}

#[test]
fn add_twice_leaves_the_word_of_adding_once() {
    for e in 0..128u8 {
        let mut once = BitSet::new(128);
        once.add(&5).unwrap();
        once.add(&e).unwrap();
        let mut twice = BitSet::new(128);
        twice.add(&5).unwrap();
        twice.add(&e).unwrap();
        assert!(matches!(twice.add(&e), Ok(())));
        assert_eq!(*twice.get_data(), *once.get_data());
        assert_eq!(twice.size(), once.size());
    }
}

#[test]
fn capacity_stays_as_given() {
    let mut set = BitSet::new(65);
    set.add(&64).unwrap();
    let _ = set.add(&65);
    set.remove(&64).unwrap();
    let _ = set.remove(&64);
    assert_eq!(set.capacity(), 65);
}

#[test]
fn has_leaves_the_set_alone() {
    let mut set = BitSet::new(8);
    set.add(&4).unwrap();
    set.add(&7).unwrap();
    let before = *set.get_data();
    let _ = set.has(&4);
    let _ = set.has(&5);
    let _ = set.has(&8);
    assert_eq!(*set.get_data(), before);
    assert_eq!(before, 0b10010000);
}

#[test]
fn debug_string_shows_the_highest_position_first() {
    let mut set = BitSet::new(6);
    assert_eq!(set.debug_string(), "[000000]");
    set.add(&0).unwrap();
    set.add(&2).unwrap();
    set.add(&3).unwrap();
    set.add(&5).unwrap();
    assert_eq!(set.debug_string(), "[101101]");
    set.remove(&5).unwrap();
    assert_eq!(set.debug_string(), "[001101]");

    let mut byte = BitSet::new(8);
    byte.add(&0).unwrap();
    assert_eq!(byte.debug_string(), "[00000001]");
    byte.add(&7).unwrap();
    assert_eq!(byte.debug_string(), "[10000001]");
}

#[test]
fn debug_string_has_one_digit_for_each_position() {
    for c in 0..=128u8 {
        let mut set = BitSet::new(c);
        if c > 0 {
            set.add(&(c - 1)).unwrap();
        }
        let shown = set.debug_string();
        assert_eq!(shown.len(), usize::from(c) + 2);
        let mut expected = String::from("[");
        for k in 0..c {
            expected.push(if k == 0 { '1' } else { '0' });
        }
        expected.push(']');
        assert_eq!(shown, expected);
    }
}

#[test]
fn debug_string_agrees_with_the_binary_form_of_the_word() {
    let mut set = BitSet::new(128);
    for e in [0u8, 1, 63, 64, 100, 127] {
        set.add(&e).unwrap();
    }
    assert_eq!(set.debug_string(), format!("[{:0128b}]", *set.get_data()));
    assert_eq!(set.size(), 6);
}

#[test]
fn error_shows_its_name() {
    assert_eq!(format!("{:?}", BitSetError::OutOfRange), "OutOfRange");
    assert_eq!(format!("{:?}", BitSetError::ElementNotFound), "ElementNotFound");
}
