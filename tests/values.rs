use shix::linked_list::LinkedList;
use shix::num::Int;

#[test]
fn linked_list_is_last_in_first_out() {
    let mut l = LinkedList::new();
    assert_eq!(l.read(), None);
    l.push(1);
    l.push(2);
    l.push(3);
    assert_eq!(l.read(), Some(&3));
    assert_eq!(l.get(2), Some(&1));
    assert_eq!(l.get(3), None);
    assert_eq!(l.pop(), Some(3));
    assert_eq!(l.next(), Some(2));
    l.clear();
    assert_eq!(l.pop(), None);
}

#[test]
fn int_arithmetic() {
    let a = Int::from_i64(-12);
    let b = Int::from_i64(5);
    assert_eq!(a.add(&b).to_decimal(), "-7");
    assert_eq!(a.sub(&b).to_decimal(), "-17");
    assert_eq!(a.mul(&b).to_decimal(), "-60");
    assert_eq!(a.checked_div(&b).unwrap().to_decimal(), "-2");
    assert_eq!(a.checked_rem(&b).unwrap().to_decimal(), "-2");
    assert!(a.checked_div(&Int::from_i64(0)).is_none());
    assert_eq!(a.neg().to_decimal(), "12");
    assert_eq!(a.copy().to_decimal(), "-12");
}

#[test]
fn int_signs() {
    let zero = Int::from_i64(0);
    assert!(zero.is_zero());
    assert!(zero.neg().is_zero());
    assert!(!zero.neg().is_negative());
    assert!(Int::from_i64(-3).is_negative());
    assert!(Int::from_i64(3).is_positive());
    assert!(!Int::from_i64(-3).is_positive());
}

#[test]
fn int_decimal_round_trip() {
    let v = Int::from_decimal("123456789012345678901234567890").unwrap();
    assert_eq!(v.to_decimal(), "123456789012345678901234567890");
    assert_eq!(Int::from_decimal("007").unwrap().to_decimal(), "7");
}

#[test]
fn int_as_index() {
    assert_eq!(Int::from_i64(42).to_usize(), Some(42));
    assert_eq!(Int::from_i64(-1).to_usize(), None);
    let huge = Int::from_decimal("100000000000000000000000").unwrap();
    assert_eq!(huge.to_usize(), None);
}
