use jbuchong::ordering::{ordering_from_java_int, ordering_to_java_byte};
use std::cmp::Ordering;

#[test]
fn ordering_is_sent_as_its_representation() {
    assert_eq!(ordering_to_java_byte(Ordering::Less), -1);
    assert_eq!(ordering_to_java_byte(Ordering::Equal), 0);
    assert_eq!(ordering_to_java_byte(Ordering::Greater), 1);
    for o in [Ordering::Less, Ordering::Equal, Ordering::Greater] {
        assert_eq!(ordering_to_java_byte(o), o as i8);
    }
}

#[test]
fn java_comparison_is_read_by_its_sign() {
    assert_eq!(ordering_from_java_int(-55), Ordering::Less);
    assert_eq!(ordering_from_java_int(i32::MIN), Ordering::Less);
    assert_eq!(ordering_from_java_int(0), Ordering::Equal);
    assert_eq!(ordering_from_java_int(33), Ordering::Greater);
    assert_eq!(ordering_from_java_int(i32::MAX), Ordering::Greater);
    assert_eq!(ordering_from_java_int(22 - 55), 22.cmp(&55));
}

#[test]
fn ordering_survives_the_round_trip() {
    for o in [Ordering::Less, Ordering::Equal, Ordering::Greater] {
        assert_eq!(ordering_from_java_int(ordering_to_java_byte(o) as i32), o);
    }
}
