use jbuchong::java_type::{
    keeps_generic_param, parse_java_type_attr, read_java_type_attr, substitute_ty_generics,
    JavaTypeAttrError,
};

#[test]
fn class_name_alone() {
    let a = parse_java_type_attr("\"io.github.worksoup.JBuChongUtils\"").unwrap();
    assert_eq!(a.java_name, "\"io.github.worksoup.JBuChongUtils\"");
    assert!(a.bindings.is_empty());
}

#[test]
fn class_name_with_bindings() {
    let a = parse_java_type_attr("\"io.github.worksoup.JBuChongUtils\" , A = i32 , B = i32").unwrap();
    assert_eq!(a.java_name, "\"io.github.worksoup.JBuChongUtils\"");
    assert_eq!(a.bindings, vec![("A", "i32"), ("B", "i32")]);
}

#[test]
fn binding_keeps_only_the_first_two_parts() {
    let a = parse_java_type_attr("\"x\", T = u8 = u16").unwrap();
    assert_eq!(a.bindings, vec![("T", "u8")]);
}

#[test]
fn binding_without_equals_is_refused() {
    assert_eq!(
        parse_java_type_attr("\"x\", A").err(),
        Some(JavaTypeAttrError::MalformedBinding)
    );
    assert_eq!(
        parse_java_type_attr("\"x\", A = i32,").err(),
        Some(JavaTypeAttrError::MalformedBinding)
    );
}

#[test]
fn bound_parameters_leave_the_impl() {
    let a = parse_java_type_attr("\"x\", A = i32").unwrap();
    assert!(!keeps_generic_param(false, "A", &a));
    assert!(keeps_generic_param(false, "B", &a));
    assert!(keeps_generic_param(true, "A", &a));
}

#[test]
fn bound_parameters_are_replaced_in_the_type() {
    let a = parse_java_type_attr("\"io.github.worksoup.JBuChongUtils\", A = i32, B = i32").unwrap();
    assert_eq!(substitute_ty_generics("< A , B >", &a), "<i32,i32>");
    let a = parse_java_type_attr("\"x\", B = String").unwrap();
    assert_eq!(substitute_ty_generics("< 'a , A , B >", &a), "<'a,A,String>");
    assert_eq!(substitute_ty_generics("", &a), "");
}

#[test]
fn last_binding_of_a_name_wins() {
    let a = parse_java_type_attr("\"x\", A = i32, A = u64").unwrap();
    assert_eq!(substitute_ty_generics("< A >", &a), "<u64>");
}

#[test]
fn white_space_of_every_kind_is_trimmed() {
    let a = parse_java_type_attr("\t\"x\"\n,\u{a0}A\t=\n i32 \u{3000}").unwrap();
    assert_eq!(a.java_name, "\"x\"");
    assert_eq!(a.bindings, vec![("A", "i32")]);
    let a = parse_java_type_attr("\"x\", K = 越").unwrap();
    assert_eq!(a.bindings, vec![("K", "越")]);
}

#[test]
fn class_name_must_be_a_string_literal() {
    assert_eq!(
        parse_java_type_attr("io.github.worksoup.JBuChongUtils").err(),
        Some(JavaTypeAttrError::ClassNameNotStringLiteral)
    );
    assert_eq!(
        parse_java_type_attr("\"unterminated").err(),
        Some(JavaTypeAttrError::ClassNameNotStringLiteral)
    );
    assert_eq!(
        parse_java_type_attr("x, A").err(),
        Some(JavaTypeAttrError::ClassNameNotStringLiteral)
    );
    assert!(parse_java_type_attr("r\"raw\"").is_ok());
}

#[test]
fn reading_follows_the_literal_check() {
    assert_eq!(
        read_java_type_attr("\"x\", A = i32", false).err(),
        Some(JavaTypeAttrError::ClassNameNotStringLiteral)
    );
    let a = read_java_type_attr("x , A = i32", true).unwrap();
    assert_eq!(a.java_name, "x");
    assert_eq!(a.bindings, vec![("A", "i32")]);
}
