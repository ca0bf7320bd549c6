use jbuchong::types::{JavaBytes, JavaString, KotlinPair, Pair};

#[test]
fn pair_keeps_its_components() {
    let p = Pair::new(1u8, "two");
    assert_eq!(&*p, &(1u8, "two"));
    assert_eq!((*p).0, 1u8);
    assert_eq!(p.into_inner(), (1u8, "two"));
    let q: Pair<bool, i64> = (false, -3).into();
    assert_eq!(*q, (false, -3));
}

#[test]
fn kotlin_pair_keeps_its_components() {
    let p = KotlinPair::new('a', 2.5f64);
    assert_eq!((*p).1, 2.5f64);
    assert_eq!(p.into_inner(), ('a', 2.5f64));
    let q: KotlinPair<u8, u8> = (4, 5).into();
    assert_eq!(&*q, &(4, 5));
}

#[test]
fn java_string_keeps_its_text() {
    let s: JavaString = "黑风雷".to_string().into();
    assert_eq!(&*s, "黑风雷");
    assert_eq!(s.len(), 9);
    assert_eq!(s.into_inner(), "黑风雷");
}

#[test]
fn java_bytes_keep_their_bytes() {
    let b = JavaBytes::from(vec![-128i8, 0, 127]);
    assert_eq!(&*b, &vec![-128i8, 0, 127]);
    assert_eq!(b.len(), 3);
    assert_eq!(b.into_inner(), vec![-128i8, 0, 127]);
}
