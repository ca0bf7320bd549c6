use jbuchong::derive_plan::{
    instance_field, is_instance_type_name, plan_enum, plan_struct_fields, DefaultAttr,
    EnumPlanError, FieldInfo, FieldInit, VariantInfo, VariantShape,
};

#[test]
fn instance_type_is_recognised_by_name() {
    assert!(is_instance_type_name("Instance"));
    assert!(!is_instance_type_name("InstanceWrapper"));
    assert!(!is_instance_type_name("instance"));
}

#[test]
fn exactly_one_instance_field() {
    assert_eq!(instance_field(&vec![false, true, false]), Some(1));
    assert_eq!(instance_field(&vec![true]), Some(0));
    assert_eq!(instance_field(&vec![true, true]), None);
    assert_eq!(instance_field(&vec![false, false]), None);
    assert_eq!(instance_field(&vec![]), None);
}

#[test]
fn struct_fields_take_the_instance_or_their_default() {
    let f = |is_instance, default_attr| FieldInfo { is_instance, default_attr };
    let plan = plan_struct_fields(&vec![
        f(false, DefaultAttr::Value),
        f(true, DefaultAttr::Absent),
        f(true, DefaultAttr::Absent),
        f(false, DefaultAttr::Function),
        f(false, DefaultAttr::Absent),
    ]);
    assert!(plan == vec![
        FieldInit::Value,
        FieldInit::Instance,
        FieldInit::TypeDefault,
        FieldInit::Function,
        FieldInit::TypeDefault,
    ]);
}

fn v(shape: VariantShape, fall: bool) -> VariantInfo {
    VariantInfo { shape, fall }
}

#[test]
fn enum_tests_tuple_variants_and_falls_to_the_last_marked() {
    let (warned, plan) = plan_enum(&vec![
        v(VariantShape::Tuple(1), false),
        v(VariantShape::Unit, true),
        v(VariantShape::Unit, false),
        v(VariantShape::Tuple(2), false),
        v(VariantShape::Tuple(1), true),
    ]);
    let plan = plan.ok().unwrap();
    assert_eq!(warned, vec![2]);
    assert_eq!(plan.tested, vec![0, 3]);
    assert_eq!(plan.fall, Some(4));
}

#[test]
fn enum_without_fall_has_no_fall_back() {
    let (warned, plan) = plan_enum(&vec![v(VariantShape::Tuple(1), false), v(VariantShape::Tuple(1), false)]);
    let plan = plan.ok().unwrap();
    assert!(warned.is_empty());
    assert_eq!(plan.tested, vec![0, 1]);
    assert_eq!(plan.fall, None);
}

#[test]
fn enum_with_named_or_empty_variant_is_refused() {
    let (warned, plan) = plan_enum(&vec![
        v(VariantShape::Unit, false),
        v(VariantShape::Named, false),
        v(VariantShape::Tuple(0), false),
    ]);
    assert_eq!(warned, vec![0]);
    assert_eq!(plan.err(), Some(EnumPlanError::NamedVariant(1)));
    let (_, plan) = plan_enum(&vec![v(VariantShape::Tuple(1), false), v(VariantShape::Tuple(0), true)]);
    assert_eq!(plan.err(), Some(EnumPlanError::EmptyTupleVariant(1)));
    let (_, plan) = plan_enum(&vec![v(VariantShape::Named, true)]);
    assert_eq!(plan.err(), Some(EnumPlanError::NamedVariant(0)));
}

#[test]
fn empty_enum_has_nothing_to_test() {
    let (warned, plan) = plan_enum(&vec![]);
    let plan = plan.ok().unwrap();
    assert!(warned.is_empty());
    assert!(plan.tested.is_empty());
    assert_eq!(plan.fall, None);
}
