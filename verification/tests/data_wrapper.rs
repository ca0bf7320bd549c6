use jbuchong::data_wrapper::{DataWrapper, DefaultCast, TypeName};

#[derive(Default, Debug, PartialEq)]
struct Boxed(u8);

#[test]
fn wrapper_gives_back_its_value() {
    let w: DataWrapper<String> = DataWrapper::from("x".to_string());
    assert_eq!(w.get_ref(), "x");
    assert_eq!(*w, "x");
    assert_eq!(w.into_inner(), "x");
}

#[test]
fn wrapper_from_value() {
    let w: DataWrapper<Vec<i8>> = vec![1i8, -2].into();
    assert_eq!(*w, vec![1i8, -2]);
    let w: DataWrapper<i32, Boxed> = DataWrapper::from(7);
    assert_eq!(*w.get_ref(), 7);
}

#[test]
fn wrapper_of_pair_gives_the_pair() {
    let w: DataWrapper<(bool, String)> = (true, "a".to_string()).into();
    assert_eq!(w.get_pair(), (true, "a".to_string()));
}

#[test]
fn marker_is_made_by_default() {
    assert_eq!(DataWrapper::<u8, Boxed>::get_marker(), Boxed(0));
    let _: DefaultCast = DataWrapper::<u8>::get_marker();
}

#[test]
fn type_name_is_given_back() {
    let t = TypeName::new("kotlin.Unit");
    assert_eq!(t.get_type_name(), "kotlin.Unit");
}
