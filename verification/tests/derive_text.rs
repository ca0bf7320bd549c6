use jbuchong::derive_text::{
    as_instance_derive_text, get_instance_derive_text, into_arg_derive_text, to_arg_derive_text,
    DeriveError,
};
use jbuchong::from_instance_text::try_from_instance_derive_text;
use jbuchong::item::{read_item, FieldsForm, GenericKind, ItemKind};
use jbuchong::java_attr_text::{java_all_text, java_text, java_type_text};

/// The text as tokens, each written out on its own: two texts with the same
/// tokens come out the same, however they were spaced.
fn tokens(s: &str) -> String {
    let mut out = Vec::new();
    write_tokens(s.parse::<proc_macro2::TokenStream>().unwrap(), &mut out);
    out.join(" ")
}

fn write_tokens(ts: proc_macro2::TokenStream, out: &mut Vec<String>) {
    for tt in ts {
        match tt {
            proc_macro2::TokenTree::Group(g) => {
                let (open, close) = match g.delimiter() {
                    proc_macro2::Delimiter::Parenthesis => ("(", ")"),
                    proc_macro2::Delimiter::Brace => ("{", "}"),
                    proc_macro2::Delimiter::Bracket => ("[", "]"),
                    proc_macro2::Delimiter::None => ("", ""),
                };
                out.push(open.to_string());
                write_tokens(g.stream(), out);
                out.push(close.to_string());
            }
            proc_macro2::TokenTree::Punct(p) => out.push(p.as_char().to_string()),
            other => out.push(other.to_string()),
        }
    }
}

fn same_tokens(got: Result<String, DeriveError>, expected: &str) {
    assert_eq!(tokens(&got.unwrap()), tokens(expected));
}

#[test]
fn item_is_read_with_its_parts() {
    let item = read_item("struct W<'a, T: Clone, const N: usize>(#[x] T, j4rs::Instance) where T: Copy;").unwrap();
    assert_eq!(item.head.name, "W");
    assert_eq!(item.head.kind, ItemKind::Struct(FieldsForm::Unnamed, 2));
    assert_eq!(tokens(&item.head.where_clause), tokens("where T: Copy"));
    assert_eq!(item.params.len(), 3);
    assert!(item.params[0].kind == GenericKind::Lifetime);
    assert_eq!(item.params[0].name, "'a");
    assert_eq!(item.params[1].name, "T");
    assert_eq!(tokens(&item.params[1].bounds), tokens("Clone"));
    assert!(item.params[2].kind == GenericKind::Const);
    assert_eq!(tokens(&item.params[2].ty), tokens("usize"));
    assert_eq!(item.fields[0].0.member, "0");
    assert_eq!(item.fields[0].1.len(), 1);
    assert_eq!(item.fields[0].1[0].path, "x");
    assert_eq!(item.fields[1].0.member, "1");
    assert_eq!(item.fields[1].0.last_segment, Some("Instance".to_string()));
    assert!(read_item("fn f() {}").is_none());
}

#[test]
fn get_instance_goes_through_the_instance_field() {
    same_tokens(
        get_instance_derive_text("pub struct S { instance: j4rs::Instance, x: i32 }"),
        "impl jbuchong::GetInstanceTrait for S {
            fn get_instance(&self) -> Result<j4rs::Instance, j4rs::errors::J4RsError> {
                j4rs::Jvm::attach_thread()?.clone_instance(&self.instance)
            }
        }",
    );
}

#[test]
fn as_instance_keeps_the_generics() {
    same_tokens(
        as_instance_derive_text("struct W<'a, T: Clone, const N: usize>(T, Instance) where T: Copy;"),
        "impl<'a, T: Clone, const N: usize> jbuchong::AsInstanceTrait for W<'a, T, N> where T: Copy {
            fn as_instance(&self) -> &j4rs::Instance {
                &self.1
            }
        }",
    );
}

#[test]
fn lifetimes_come_first_in_the_impl() {
    same_tokens(
        as_instance_derive_text("struct W<T, 'a>(&'a T, Instance);"),
        "impl<'a, T> jbuchong::AsInstanceTrait for W<'a, T> {
            fn as_instance(&self) -> &j4rs::Instance {
                &self.1
            }
        }",
    );
}

#[test]
fn to_arg_on_an_enum_delegates_to_each_variant() {
    same_tokens(
        to_arg_derive_text("enum E { A(AType), B(BType) }"),
        "impl jbuchong::ToArgTrait for E {
            fn to_arg(&self) -> Result<j4rs::InvocationArg, j4rs::errors::J4RsError> {
                match self {
                    E::A(a) => a.to_arg(),
                    E::B(a) => a.to_arg(),
                }
            }
        }",
    );
}

#[test]
fn into_arg_moves_the_instance_field() {
    same_tokens(
        into_arg_derive_text("struct S { inner: Instance }"),
        "impl jbuchong::IntoArgTrait for S {
            fn into_arg(self) -> Result<j4rs::InvocationArg, j4rs::errors::J4RsError> {
                Ok(j4rs::InvocationArg::try_from(self.inner)?)
            }
        }",
    );
}

#[test]
fn instance_derives_refuse_what_they_cannot_write() {
    assert_eq!(get_instance_derive_text("struct S { a: Instance, b: Instance }"), Err(DeriveError::InstanceFieldCount));
    assert_eq!(get_instance_derive_text("struct S { a: i32 }"), Err(DeriveError::InstanceFieldCount));
    assert_eq!(get_instance_derive_text("union U { a: u32 }"), Err(DeriveError::Union));
    assert_eq!(get_instance_derive_text("fn f() {}"), Err(DeriveError::NotAnItem));
}

#[test]
fn try_from_instance_fills_each_field() {
    let (warned, r) = try_from_instance_derive_text(
        "struct S { a: i32, instance: Instance, #[default(value = 5)] b: i32, #[default(fn_name = get_c)] c: String, d: Instance }",
    );
    assert!(warned.is_empty());
    same_tokens(
        r,
        "impl jbuchong::TryFromInstanceTrait for S {
            fn try_from_instance(instance: j4rs::Instance) -> Result<Self, j4rs::errors::J4RsError> {
                let field_b = 5;
                let field_c = get_c(&instance);
                Ok(Self { a: Default::default(), instance: instance, b: field_b, c: field_c, d: Default::default() })
            }
        }",
    );
}

#[test]
fn try_from_instance_for_tuple_and_unit_structs() {
    same_tokens(
        try_from_instance_derive_text("struct T(Instance, i32);").1,
        "impl jbuchong::TryFromInstanceTrait for T {
            fn try_from_instance(instance: j4rs::Instance) -> Result<Self, j4rs::errors::J4RsError> {
                Ok(Self(instance, Default::default()))
            }
        }",
    );
    same_tokens(
        try_from_instance_derive_text("struct U;").1,
        "impl jbuchong::TryFromInstanceTrait for U {
            fn try_from_instance(instance: j4rs::Instance) -> Result<Self, j4rs::errors::J4RsError> {
                Ok(Self)
            }
        }",
    );
}

#[test]
fn try_from_instance_refuses_a_malformed_default() {
    assert_eq!(try_from_instance_derive_text("struct S { #[default(5)] a: i32 }").1, Err(DeriveError::MalformedDefault));
    assert_eq!(
        try_from_instance_derive_text("struct S { #[default(other = 1)] a: i32 }").1,
        Err(DeriveError::MalformedDefault)
    );
    assert_eq!(try_from_instance_derive_text("union U { a: u32 }").1, Err(DeriveError::Union));
}

#[test]
fn try_from_instance_tests_variants_then_falls_back() {
    let (warned, r) = try_from_instance_derive_text("enum E { A(AType), #[fall] B(BType), C }");
    assert_eq!(warned, vec![2]);
    same_tokens(
        r,
        "impl jbuchong::TryFromInstanceTrait for E {
            fn try_from_instance(instance: j4rs::Instance) -> Result<Self, j4rs::errors::J4RsError> {
                Ok(if <AType as jbuchong::GetClassTypeTrait>::is_this_type(&instance) {
                    E::A(<AType>::try_from_instance(<AType as jbuchong::GetClassTypeTrait>::cast_to_this_type(instance))?)
                } else {
                    E::B(<BType as jbuchong::TryFromInstanceTrait>::try_from_instance(instance)?)
                })
            }
        }",
    );
}

#[test]
fn try_from_instance_without_fall_panics_on_an_unknown_class() {
    let (warned, r) = try_from_instance_derive_text("enum E { A(AType) }");
    assert!(warned.is_empty());
    same_tokens(
        r,
        "impl jbuchong::TryFromInstanceTrait for E {
            fn try_from_instance(instance: j4rs::Instance) -> Result<Self, j4rs::errors::J4RsError> {
                Ok(if <AType as jbuchong::GetClassTypeTrait>::is_this_type(&instance) {
                    E::A(<AType>::try_from_instance(<AType as jbuchong::GetClassTypeTrait>::cast_to_this_type(instance))?)
                } else { panic!(\"意料之外的类型！\") })
            }
        }",
    );
}

#[test]
fn try_from_instance_last_fall_wins_and_may_be_a_unit_variant() {
    let (_, r) = try_from_instance_derive_text("enum E { #[fall] A(X), #[fall] Other }");
    same_tokens(
        r,
        "impl jbuchong::TryFromInstanceTrait for E {
            fn try_from_instance(instance: j4rs::Instance) -> Result<Self, j4rs::errors::J4RsError> {
                Ok({ E::Other })
            }
        }",
    );
}

#[test]
fn try_from_instance_refuses_variants_it_cannot_test() {
    assert_eq!(try_from_instance_derive_text("enum E { A(), B }").1, Err(DeriveError::EmptyTupleVariant(0)));
    assert_eq!(try_from_instance_derive_text("enum E { A(X), B { x: i32 } }").1, Err(DeriveError::NamedVariant(1)));
    assert_eq!(try_from_instance_derive_text("enum E { A(X), #[fall] B { x: i32 } }").1, Err(DeriveError::NamedVariant(1)));
}

const CLASS_METHODS_HEAD: &str = "
    fn get_class_type() -> j4rs::Instance {
        j4rs::Jvm::attach_thread()
            .unwrap()
            .invoke_static(
                \"io.github.worksoup.JBuChongUtils\",
                \"forName\",
                &[j4rs::InvocationArg::try_from(Self::get_type_name()).unwrap()],
            )
            .unwrap()
    }
    fn cast_to_this_type(instance: j4rs::Instance) -> j4rs::Instance {
        let jvm = j4rs::Jvm::attach_thread().unwrap();
        jvm.cast(&instance, Self::get_type_name()).unwrap()
    }
    fn get_type_name() -> &'static str {";

const CLASS_METHODS_TAIL: &str = "}
    fn is_this_type(instance: &j4rs::Instance) -> bool {
        jbuchong::utils::is_instance_of(&instance, Self::get_type_name())
    }
}";

#[test]
fn java_type_binds_the_named_generic_parameters() {
    let expected = format!(
        "struct S<A, B> {{ a: A, b: B }}
        impl<B> jbuchong::GetClassTypeTrait for S<i32, B> {{ {CLASS_METHODS_HEAD} \"a.b.C\" {CLASS_METHODS_TAIL}"
    );
    same_tokens(java_type_text("\"a.b.C\", A = i32", "struct S<A, B> { a: A, b: B }"), &expected);
}

#[test]
fn java_type_without_generics() {
    let expected = format!(
        "struct JBuChongUtils {{}}
        impl jbuchong::GetClassTypeTrait for JBuChongUtils {{ {CLASS_METHODS_HEAD} \"io.github.worksoup.JBuChongUtils\" {CLASS_METHODS_TAIL}"
    );
    same_tokens(java_type_text("\"io.github.worksoup.JBuChongUtils\"", "struct JBuChongUtils {}"), &expected);
}

#[test]
fn java_type_refuses_bad_arguments() {
    assert_eq!(java_type_text("C", "struct S;"), Err(DeriveError::ClassNameNotStringLiteral));
    assert_eq!(java_type_text("\"C\", A", "struct S<A>(A);"), Err(DeriveError::MalformedBinding));
    assert_eq!(java_type_text("\"C\"", "fn f() {}"), Err(DeriveError::NotAnItem));
}

#[test]
fn java_adds_the_derives_and_the_class() {
    same_tokens(
        java_text("", "struct S { i: Instance }"),
        "#[derive(jbuchong::AsInstanceDerive, jbuchong::GetInstanceDerive, jbuchong::ToArgDerive, jbuchong::IntoArgDerive)]
        struct S { i: Instance }",
    );
    same_tokens(
        java_text("\"a.B\"", "struct S { i: Instance }"),
        "#[derive(jbuchong::AsInstanceDerive, jbuchong::GetInstanceDerive, jbuchong::ToArgDerive, jbuchong::IntoArgDerive)]
        #[jbuchong::java_type(\"a.B\")]
        struct S { i: Instance }",
    );
    assert_eq!(java_text("a.B", "struct S;"), Err(DeriveError::ClassNameNotStringLiteral));
}

#[test]
fn java_all_adds_try_from_instance_too() {
    same_tokens(
        java_all_text("\"a.B\"", "struct S { i: Instance }"),
        "#[derive(jbuchong::TryFromInstanceDerive)]
        #[derive(jbuchong::AsInstanceDerive, jbuchong::GetInstanceDerive, jbuchong::ToArgDerive, jbuchong::IntoArgDerive)]
        #[jbuchong::java_type(\"a.B\")]
        struct S { i: Instance }",
    );
    assert_eq!(java_all_text("\"a.B\"", "fn f() {}"), Err(DeriveError::NotAnItem));
}

#[test]
fn the_four_instance_derives_accept_the_same_items() {
    let all = [get_instance_derive_text, as_instance_derive_text, to_arg_derive_text, into_arg_derive_text];
    for derive in all {
        assert!(derive("enum E { A(X), B(Y) }").is_ok());
        assert!(derive("struct S(i32, Instance);").is_ok());
        assert_eq!(derive("struct S(Instance, Instance);"), Err(DeriveError::InstanceFieldCount));
        assert_eq!(derive("union U { a: u32 }"), Err(DeriveError::Union));
    }
}

#[test]
fn java_type_keeps_lifetimes_and_unbound_parameters() {
    let expected = format!(
        "struct S<'a, A, B>(&'a A, B);
        impl<'a, B> jbuchong::GetClassTypeTrait for S<'a, i32, B> {{ {CLASS_METHODS_HEAD} \"a.C\" {CLASS_METHODS_TAIL}"
    );
    same_tokens(java_type_text("\"a.C\", A = i32", "struct S<'a, A, B>(&'a A, B);"), &expected);
}
