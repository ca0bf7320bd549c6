use jbuchong::codegen::{impl_kt_func_n_, jvm_side_kt_func, kt_func_impls_source};

fn expected_class(pc: usize) -> String {
    let type_params = &"ABCDEFGHIJKLMNOP"[0..pc];
    let type_params_1 = type_params
        .chars()
        .map(|c| format!("in {c}"))
        .collect::<Vec<_>>()
        .join(", ");
    let type_params_2 = [
        vec!["Pair<A, B>".to_string()],
        "ABCDEFGHIJKLMNOP"[2..pc].chars().map(|c| c.to_string()).collect::<Vec<_>>(),
    ]
    .concat()
    .join(", ");
    let type_params_3 = "ABCDEFGHIJKLMNOP"[0..pc]
        .chars()
        .map(|c| c.to_string())
        .collect::<Vec<_>>()
        .join(", ");
    let type_params_4 = type_params
        .chars()
        .enumerate()
        .map(|(pc, c)| format!("p{pc}:{c}"))
        .collect::<Vec<_>>()
        .join(", ");
    let type_params_5 = [
        vec!["Pair(p0, p1)".to_string()],
        (2..pc).map(|c| format!("p{c}")).collect::<Vec<_>>(),
    ]
    .concat()
    .join(", ");
    format!(
        r#"package io.github.worksoup.function

class JBuChongKtFunc{}<{}, out R>(private var func: JBuChongKtFunc{}<{}, R>) :
    Function{}<{}, R> {{
    override fun invoke({}): R {{
        return func({})
    }}
}}"#,
        pc,
        type_params_1,
        pc - 1,
        type_params_2,
        pc,
        type_params_3,
        type_params_4,
        type_params_5
    )
}

fn expected_items(n: usize) -> String {
    let upper_params = "ABCDEFGHIJKLMNOP"[0..n].chars().map(|c| format!("{c}")).collect::<Vec<_>>();
    let type_params = upper_params[2..].join(", ");
    let args_1 = "ABCDEFGHIJKLMNOP"[2..n]
        .chars()
        .map(|c| format!("{}: {}", c.to_lowercase(), c))
        .collect::<Vec<_>>()
        .join(", ");
    let args_2 = "ABCDEFGHIJKLMNOP"[0..n]
        .chars()
        .map(|c| format!("{}: InvocationArg", c.to_lowercase()))
        .collect::<Vec<_>>()
        .join(", ");
    let call_args = "ABCDEFGHIJKLMNOP"[2..n]
        .chars()
        .map(|c| format!("{}", c.to_lowercase()))
        .collect::<Vec<_>>()
        .join(", ");
    let where_params = "ABCDEFGHIJKLMNOP"[0..n]
        .chars()
        .map(|c| format!("{c}: jbuchong::TryFromInstanceTrait"))
        .collect::<Vec<_>>()
        .join(",\n");
    let name = format!("Func{n}");
    let prev = format!("Func{}", n - 1);
    format!(
        r#"
#[jbuchong::java]
pub struct {name}<A, B, {type_params}, R> {{
    instance: Instance,
    func: {prev}<jbuchong::KotlinPair<A, B>, {type_params}, R>,
}}
impl<A, B, {type_params}, R> {name}<A, B, {type_params}, R> {{
    pub fn drop(self) {{
        self.func.drop()
    }}
    pub fn call(&self, a: A, b: B, {args_1}) -> R {{
        self.func.call(jbuchong::KotlinPair::new(a, b), {call_args})
    }}
}}
impl<A, B, {type_params}, R> {name}<A, B, {type_params}, R>
where
    R: jbuchong::TryFromInstanceTrait,
{{
    pub fn invoke(&self, {args_2}) -> Result<R, J4RsError> {{
        let jvm = Jvm::attach_thread()?;
        let result = jvm.invoke(&jbuchong::GetInstanceTrait::get_instance(self)?, "invoke", &[a, b, {call_args}])?;
        R::try_from_instance(result)
    }}
}}

impl<A, B, {type_params}, R> {name}<A, B, {type_params}, R>
where
    {where_params},
    R: jbuchong::GetInstanceTrait,
{{
    pub fn new<Func>(closure: Func) -> {name}<A, B, {type_params}, R>
    where
        Func: Fn(A, B, {type_params}) -> R + 'static,
    {{
        let internal_fn = move |v: jbuchong::KotlinPair<A, B>, {args_1}| -> R {{ let (a, b) = v.into_inner(); closure(a, b, {call_args}) }};
        let func = {prev}::new(internal_fn);
        let jvm = Jvm::attach_thread().unwrap();
        let instance = jvm
            .create_instance(
                "io.github.worksoup.function.JBuChongKt{name}",
                &[InvocationArg::from(jbuchong::GetInstanceTrait::get_instance(&func).unwrap())],
            )
            .unwrap();
        {name} {{ instance, func }}
    }}
}}
        "#,
    )
}

#[test]
fn gen_jvm_side_kt_func() {
    for pc in 3..=16 {
        println!("{}", jvm_side_kt_func(pc));
    }
}

#[test]
fn kotlin_class_for_three_parameters() {
    let expected = "package io.github.worksoup.function\n\nclass JBuChongKtFunc3<in A, in B, in C, out R>(private var func: JBuChongKtFunc2<Pair<A, B>, C, R>) :\n    Function3<A, B, C, R> {\n    override fun invoke(p0:A, p1:B, p2:C): R {\n        return func(Pair(p0, p1), p2)\n    }\n}";
    assert_eq!(jvm_side_kt_func(3), expected);
}

#[test]
fn kotlin_classes_match_formatted_text() {
    for pc in 2..=16 {
        assert_eq!(jvm_side_kt_func(pc), expected_class(pc), "pc = {pc}");
    }
}

#[test]
fn kotlin_class_for_sixteen_parameters_counts_past_nine() {
    let text = jvm_side_kt_func(16);
    assert!(text.contains("class JBuChongKtFunc16<"));
    assert!(text.contains("JBuChongKtFunc15<Pair<A, B>, C, D, E, F, G, H, I, J, K, L, M, N, O, P, R>"));
    assert!(text.contains("p10:K, p11:L"));
    assert!(text.contains("p14, p15)"));
}

#[test]
fn rust_items_for_three_parameters() {
    let text = impl_kt_func_n_(3);
    assert!(text.starts_with("\n#[jbuchong::java]\npub struct Func3<A, B, C, R> {\n"));
    assert!(text.contains("func: Func2<jbuchong::KotlinPair<A, B>, C, R>,"));
    assert!(text.contains("pub fn call(&self, a: A, b: B, c: C) -> R {"));
    assert!(text.contains("pub fn invoke(&self, a: InvocationArg, b: InvocationArg, c: InvocationArg)"));
    assert!(text.contains("    A: jbuchong::TryFromInstanceTrait,\nB: jbuchong::TryFromInstanceTrait,\nC: jbuchong::TryFromInstanceTrait,\n"));
    assert!(text.ends_with("        Func3 { instance, func }\n    }\n}\n        "));
}

#[test]
fn rust_items_match_formatted_text() {
    for n in 2..=16 {
        assert_eq!(impl_kt_func_n_(n), expected_items(n), "n = {n}");
    }
}

#[test]
fn generated_module_lists_every_arity() {
    let import = "\nuse crate::Func2;\nuse j4rs::errors::J4RsError;\nuse j4rs::{{Instance, InvocationArg, Jvm}};\n    ";
    let mut parts = vec![import.to_string()];
    for n in 3..=16 {
        parts.push(expected_items(n));
    }
    assert_eq!(kt_func_impls_source(), parts.join("\n"));
}

#[test]
fn rust_and_kotlin_sides_agree() {
    for n in 3..=16usize {
        let rust = impl_kt_func_n_(n);
        let kotlin = jvm_side_kt_func(n);
        assert!(rust.contains(&format!("\"io.github.worksoup.function.JBuChongKtFunc{n}\"")));
        assert!(kotlin.starts_with(&format!("package io.github.worksoup.function\n\nclass JBuChongKtFunc{n}<")));
        let rest: Vec<String> = "ABCDEFGHIJKLMNOP"[2..n].chars().map(|c| c.to_string()).collect();
        let rest = rest.join(", ");
        assert!(rust.contains(&format!("Func{}<jbuchong::KotlinPair<A, B>, {rest}, R>", n - 1)));
        assert!(kotlin.contains(&format!("JBuChongKtFunc{}<Pair<A, B>, {rest}, R>", n - 1)));
        let rust_invoke = rust.split("pub fn invoke(&self, ").nth(1).unwrap().split(')').next().unwrap();
        let kotlin_invoke = kotlin.split("override fun invoke(").nth(1).unwrap().split(')').next().unwrap();
        assert_eq!(rust_invoke.split(", ").count(), n);
        assert_eq!(kotlin_invoke.split(", ").count(), n);
    }
}
