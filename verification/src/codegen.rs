//! Generators of the glue sources that the bridge is built from: the Rust
//! items of the Kotlin function types with three to sixteen parameters, and
//! the Kotlin classes on the Java side that forward such a function to the
//! one with a parameter less, its first two arguments packed in a pair.
use vstd::prelude::*;
use vstd::string::StringExecFns;
use crate::text::{
    append_decimal, append_lower_letter, append_upper_letter, decimal, join, lemma_join_take_next,
    lower_letters, upper_letters,
};

verus! {

// ---------------------------------------------------------------------------
// Rust side: the items of `FuncN`.
// ---------------------------------------------------------------------------

/// The name of the Rust type of the Kotlin function type with `n` parameters.
pub open spec fn kt_type_name(n: nat) -> Seq<char> {
    "Func"@ + decimal(n)
}

/// The type parameters after the first two: `C, D, ...`.
pub open spec fn kt_type_params(n: nat) -> Seq<char> {
    join(Seq::new((n - 2) as nat, |k: int| seq![upper_letters()[k + 2]]), ", "@)
}

/// The arguments after the first two with their types: `c: C, d: D, ...`.
pub open spec fn kt_typed_args(n: nat) -> Seq<char> {
    join(
        Seq::new((n - 2) as nat, |k: int| seq![lower_letters()[k + 2]] + ": "@ + seq![upper_letters()[k + 2]]),
        ", "@,
    )
}

/// All arguments as Java invocation arguments: `a: InvocationArg, b: InvocationArg, ...`.
pub open spec fn kt_invocation_args(n: nat) -> Seq<char> {
    join(kt_rust_invoke_params(n), ", "@)
}

/// The arguments after the first two, by name: `c, d, ...`.
pub open spec fn kt_call_args(n: nat) -> Seq<char> {
    join(Seq::new((n - 2) as nat, |k: int| seq![lower_letters()[k + 2]]), ", "@)
}

/// One bound per type parameter, one per line.
pub open spec fn kt_where_params(n: nat) -> Seq<char> {
    join(
        Seq::new(n, |k: int| seq![upper_letters()[k]] + ": jbuchong::TryFromInstanceTrait"@),
        ",\n"@,
    )
}

/// The package of the Kotlin classes on the Java side.
pub open spec fn kt_package() -> Seq<char> {
    "io.github.worksoup.function"@
}

/// The name of the Kotlin class for the function type with `n` parameters.
pub open spec fn kt_class_name(n: nat) -> Seq<char> {
    "JBuChongKt"@ + kt_type_name(n)
}

/// The qualified name of that Kotlin class, as a string literal.
pub open spec fn kt_class_literal(n: nat) -> Seq<char> {
    "\""@ + kt_package() + "."@ + kt_class_name(n) + "\""@
}

/// The type of the delegate field: the function type with `n - 1`
/// parameters, whose first takes the first two arguments as a pair.
pub open spec fn kt_delegate_type(n: nat) -> Seq<char> {
    kt_type_name((n - 1) as nat) + "<jbuchong::KotlinPair<A, B>, "@ + kt_type_params(n) + ", R>"@
}

/// The parameters of the Rust `invoke`, one per parameter of the function
/// type.
pub open spec fn kt_rust_invoke_params(n: nat) -> Seq<Seq<char>> {
    Seq::new(n, |k: int| seq![lower_letters()[k]] + ": InvocationArg"@)
}

/// The signature of the Rust `invoke`.
pub open spec fn kt_rust_invoke_head(n: nat) -> Seq<char> {
    "pub fn invoke(&self, "@ + kt_invocation_args(n) + ")"@
}

/// The Rust items up to the type of the delegate field.
#[verifier::opaque]
pub open spec fn kt_impl_part1(n: nat) -> Seq<char> {
    "\n#[jbuchong::java]\npub struct "@ +
    kt_type_name(n) +
    "<A, B, "@ +
    kt_type_params(n) +
    ", R> {\n    instance: Instance,\n    func: "@
}

/// The Rust items from after the delegate type up to the signature of `invoke`.
#[verifier::opaque]
pub open spec fn kt_impl_part2(n: nat) -> Seq<char> {
    ",\n}\nimpl<A, B, "@ +
    kt_type_params(n) +
    ", R> "@ +
    kt_type_name(n) +
    "<A, B, "@ +
    kt_type_params(n) +
    ", R> {\n    pub fn drop(self) {\n        self.func.drop()\n    }\n    pub fn call(&self, a: A, b: B, "@ +
    kt_typed_args(n) +
    ") -> R {\n        self.func.call(jbuchong::KotlinPair::new(a, b), "@ +
    kt_call_args(n) +
    ")\n    }\n}\nimpl<A, B, "@ +
    kt_type_params(n) +
    ", R> "@ +
    kt_type_name(n) +
    "<A, B, "@ +
    kt_type_params(n) +
    ", R>\nwhere\n    R: jbuchong::TryFromInstanceTrait,\n{\n    "@
}

/// The Rust items from after the signature of `invoke` up to the name of the Java class that `new` instantiates.
#[verifier::opaque]
pub open spec fn kt_impl_part3(n: nat) -> Seq<char> {
    " -> Result<R, J4RsError> {\n        let jvm = Jvm::attach_thread()?;\n        let result = jvm.invoke(&jbuchong::GetInstanceTrait::get_instance(self)?, \"invoke\", &[a, b, "@ +
    kt_call_args(n) +
    "])?;\n        R::try_from_instance(result)\n    }\n}\n\nimpl<A, B, "@ +
    kt_type_params(n) +
    ", R> "@ +
    kt_type_name(n) +
    "<A, B, "@ +
    kt_type_params(n) +
    ", R>\nwhere\n    "@ +
    kt_where_params(n) +
    ",\n    R: jbuchong::GetInstanceTrait,\n{\n    pub fn new<Func>(closure: Func) -> "@ +
    kt_type_name(n) +
    "<A, B, "@ +
    kt_type_params(n) +
    ", R>\n    where\n        Func: Fn(A, B, "@ +
    kt_type_params(n) +
    ") -> R + 'static,\n    {\n        let internal_fn = move |v: jbuchong::KotlinPair<A, B>, "@ +
    kt_typed_args(n) +
    "| -> R { let (a, b) = v.into_inner(); closure(a, b, "@ +
    kt_call_args(n) +
    ") };\n        let func = "@ +
    kt_type_name((n - 1) as nat) +
    "::new(internal_fn);\n        let jvm = Jvm::attach_thread().unwrap();\n        let instance = jvm\n            .create_instance(\n                "@
}

/// The Rust items after the name of the Java class.
#[verifier::opaque]
pub open spec fn kt_impl_part4(n: nat) -> Seq<char> {
    ",\n                &[InvocationArg::from(jbuchong::GetInstanceTrait::get_instance(&func).unwrap())],\n            )\n            .unwrap();\n        "@ +
    kt_type_name(n) +
    " { instance, func }\n    }\n}\n        "@
}

/// The Rust items of the Kotlin function type with `n` parameters, which
/// delegate to the one with `n - 1` parameters.
pub open spec fn kt_func_impl_text(n: nat) -> Seq<char> {
    kt_impl_part1(n) + kt_delegate_type(n) + kt_impl_part2(n) + kt_rust_invoke_head(n)
        + kt_impl_part3(n) + kt_class_literal(n) + kt_impl_part4(n)
}

/// The header of the generated module.
pub open spec fn kt_func_imports() -> Seq<char> {
    "\nuse crate::Func2;\nuse j4rs::errors::J4RsError;\nuse j4rs::{{Instance, InvocationArg, Jvm}};\n    "@
}

/// The whole generated module: the header, then the items for three to
/// sixteen parameters, one after another, each two apart by a line break.
pub open spec fn kt_func_impls_text() -> Seq<char> {
    join(seq![kt_func_imports()] + Seq::new(14, |k: int| kt_func_impl_text((k + 3) as nat)), "\n"@)
}

// ---------------------------------------------------------------------------
// Java side: the Kotlin classes `JBuChongKtFuncN`.
// ---------------------------------------------------------------------------

/// The type parameters, each declared contravariant: `in A, in B, ...`.
pub open spec fn kt_class_contravariant_params(pc: nat) -> Seq<char> {
    join(Seq::new(pc, |k: int| "in "@ + seq![upper_letters()[k]]), ", "@)
}

/// The type arguments of the delegate: `Pair<A, B>, C, D, ...`.
pub open spec fn kt_class_delegate_params(pc: nat) -> Seq<char> {
    join(seq!["Pair<A, B>"@] + Seq::new((pc - 2) as nat, |k: int| seq![upper_letters()[k + 2]]), ", "@)
}

/// The type parameters: `A, B, C, ...`.
pub open spec fn kt_class_params(pc: nat) -> Seq<char> {
    join(Seq::new(pc, |k: int| seq![upper_letters()[k]]), ", "@)
}

/// The parameters of `invoke`: `p0:A, p1:B, ...`.
pub open spec fn kt_class_invoke_params(pc: nat) -> Seq<char> {
    join(kt_kotlin_invoke_params(pc), ", "@)
}

/// The parameters of the Kotlin `invoke`, one per parameter of the function
/// type: `p0:A`, `p1:B`, ...
pub open spec fn kt_kotlin_invoke_params(pc: nat) -> Seq<Seq<char>> {
    Seq::new(pc, |k: int| "p"@ + decimal(k as nat) + ":"@ + seq![upper_letters()[k]])
}

/// The arguments passed on to the delegate: `Pair(p0, p1), p2, p3, ...`.
pub open spec fn kt_class_call_args(pc: nat) -> Seq<char> {
    join(seq!["Pair(p0, p1)"@] + Seq::new((pc - 2) as nat, |k: int| "p"@ + decimal((k + 2) as nat)), ", "@)
}

/// The Kotlin class up to the type of its delegate.
pub open spec fn kt_class_head(pc: nat) -> Seq<char> {
    "package "@ + kt_package() + "\n\n"@ + "class "@ + kt_class_name(pc) + "<"@ + kt_class_contravariant_params(pc)
        + ", out R>(private var func: "@
}

/// The type of the delegate: the class with a parameter less, whose first
/// parameter is the pair of the first two.
pub open spec fn kt_class_delegate(pc: nat) -> Seq<char> {
    kt_class_name((pc - 1) as nat) + "<"@ + kt_class_delegate_params(pc) + ", R>"@
}

/// The Kotlin class from after the delegate up to `invoke`.
pub open spec fn kt_class_middle(pc: nat) -> Seq<char> {
    ") :\n    Function"@ + decimal(pc) + "<"@ + kt_class_params(pc) + ", R> {\n    "@
}

/// The signature of the Kotlin `invoke`.
pub open spec fn kt_class_invoke_head(pc: nat) -> Seq<char> {
    "override fun invoke("@ + kt_class_invoke_params(pc) + "): R"@
}

/// The body of the Kotlin `invoke`.
pub open spec fn kt_class_tail(pc: nat) -> Seq<char> {
    " {\n        return func("@ + kt_class_call_args(pc) + ")\n    }\n}"@
}

/// The Kotlin class for `pc` parameters.
pub open spec fn kt_class_text(pc: nat) -> Seq<char> {
    kt_class_head(pc) + kt_class_delegate(pc) + kt_class_middle(pc) + kt_class_invoke_head(pc)
        + kt_class_tail(pc)
}

// ---------------------------------------------------------------------------
// The two sides agree.
// ---------------------------------------------------------------------------

/// A joined list that starts with `h` and goes on with `xs` is `h`, the
/// separator, then `xs` joined.
pub proof fn lemma_join_cons(h: Seq<char>, xs: Seq<Seq<char>>, sep: Seq<char>)
    requires
        xs.len() >= 1,
    ensures
        join(seq![h] + xs, sep) == h + sep + join(xs, sep),
    decreases xs.len(),
{
    let l = seq![h] + xs;
    assert(l.drop_last() =~= seq![h] + xs.drop_last());
    assert(l.last() == xs.last());
    assert(join(l, sep) == join(l.drop_last(), sep) + sep + l.last());
    if xs.len() == 1 {
        assert(seq![h] + xs.drop_last() =~= seq![h]);
        assert(join(xs, sep) == xs[0]);
        assert(join(seq![h], sep) == h);
    } else {
        lemma_join_cons(h, xs.drop_last(), sep);
        assert(join(xs, sep) == join(xs.drop_last(), sep) + sep + xs.last());
        assert(join(l, sep) =~= h + sep + (join(xs.drop_last(), sep) + sep + xs.last()));
    }
}

/// `s` is `pre`, then `mid`, then `post`.
pub open spec fn split_around(s: Seq<char>, pre: Seq<char>, mid: Seq<char>, post: Seq<char>) -> bool {
    s == pre + mid + post
}

/// `mid` occurs in `s`.
pub open spec fn occurs_in(s: Seq<char>, mid: Seq<char>) -> bool {
    exists|pre: Seq<char>, post: Seq<char>| #[trigger] split_around(s, pre, mid, post)
}

/// The Rust items for `Func{n}` and the Kotlin class for `n` parameters
/// belong together: `new` on the Rust side instantiates, by its qualified
/// name, the class that the Kotlin file declares in its package; both
/// delegate to the function type with a parameter less, whose first
/// parameter is the pair of the first two and whose others are the
/// remaining ones; and both `invoke`s take one parameter per parameter of
/// the function type.
pub proof fn lemma_rust_and_kotlin_sides_agree(n: nat)
    requires
        3 <= n <= 16,
    ensures
        occurs_in(kt_func_impl_text(n), "\""@ + kt_package() + "."@ + kt_class_name(n) + "\""@),
        occurs_in(
            kt_class_text(n),
            "package "@ + kt_package() + "\n\n"@ + "class "@ + kt_class_name(n) + "<"@,
        ),
        occurs_in(
            kt_func_impl_text(n),
            kt_type_name((n - 1) as nat) + "<jbuchong::KotlinPair<A, B>, "@ + kt_type_params(n) + ", R>"@,
        ),
        occurs_in(
            kt_class_text(n),
            kt_class_name((n - 1) as nat) + "<"@ + "Pair<A, B>"@ + ", "@ + kt_type_params(n) + ", R>"@,
        ),
        occurs_in(kt_func_impl_text(n), "pub fn invoke(&self, "@ + join(kt_rust_invoke_params(n), ", "@) + ")"@),
        occurs_in(kt_class_text(n), "override fun invoke("@ + join(kt_kotlin_invoke_params(n), ", "@) + "): R"@),
        kt_rust_invoke_params(n).len() == n,
        kt_kotlin_invoke_params(n).len() == n,
{
    let p1 = kt_impl_part1(n);
    let d = kt_delegate_type(n);
    let p2 = kt_impl_part2(n);
    let i = kt_rust_invoke_head(n);
    let p3 = kt_impl_part3(n);
    let q = kt_class_literal(n);
    let p4 = kt_impl_part4(n);
    let rust = kt_func_impl_text(n);
    assert(split_around(rust, p1 + d + p2 + i + p3, q, p4));
    assert(split_around(rust, p1, d, p2 + i + p3 + q + p4)) by {
        assert(rust =~= p1 + d + (p2 + i + p3 + q + p4));
    }
    assert(split_around(rust, p1 + d + p2, i, p3 + q + p4)) by {
        assert(rust =~= p1 + d + p2 + i + (p3 + q + p4));
    }

    let h = kt_class_head(n);
    let kd = kt_class_delegate(n);
    let m = kt_class_middle(n);
    let ki = kt_class_invoke_head(n);
    let t = kt_class_tail(n);
    let kotlin = kt_class_text(n);
    let opening = "package "@ + kt_package() + "\n\n"@ + "class "@ + kt_class_name(n) + "<"@;
    let after = kt_class_contravariant_params(n) + ", out R>(private var func: "@ + kd + m + ki + t;
    assert(split_around(kotlin, Seq::empty(), opening, after)) by {
        assert(kotlin =~= Seq::<char>::empty() + opening + after);
    }

    let rest = Seq::new((n - 2) as nat, |k: int| seq![upper_letters()[k + 2]]);
    lemma_join_cons("Pair<A, B>"@, rest, ", "@);
    assert(kt_class_delegate_params(n) == "Pair<A, B>"@ + ", "@ + kt_type_params(n));
    let kd2 = kt_class_name((n - 1) as nat) + "<"@ + "Pair<A, B>"@ + ", "@ + kt_type_params(n) + ", R>"@;
    assert(split_around(kotlin, h, kd2, m + ki + t)) by {
        assert(kd =~= kd2);
        assert(kotlin =~= h + kd + (m + ki + t));
    }
    assert(split_around(kotlin, h + kd + m, ki, t));
}

// ---------------------------------------------------------------------------
// Lists of parameters.
// ---------------------------------------------------------------------------

/// The shapes of the items of the generated parameter lists; `k` below is
/// the position of the item in its list.
enum ListItem {
    /// The type parameter at `k` plus the offset.
    Upper(usize),
    /// The argument at `k` plus the offset.
    Lower(usize),
    /// The argument at `k` plus the offset, with its type.
    LowerTyped(usize),
    /// The argument at `k`, typed as a Java invocation argument.
    InvocationArgParam,
    /// The type parameter at `k`, bound to be readable from Java.
    InstanceBound,
    /// The type parameter at `k`, declared contravariant.
    ContravariantParam,
    /// The pair type first, then the type parameter at `k + 1`.
    PairTypeThenUpper,
    /// The parameter `p<k>` typed by the type parameter at `k`.
    IndexedParam,
    /// The pair of the first two parameters first, then `p<k + 1>`.
    PairValueThenIndex,
}

spec fn item_spec(form: ListItem, k: int) -> Seq<char> {
    match form {
        ListItem::Upper(o) => seq![upper_letters()[k + o]],
        ListItem::Lower(o) => seq![lower_letters()[k + o]],
        ListItem::LowerTyped(o) => seq![lower_letters()[k + o]] + ": "@ + seq![upper_letters()[k + o]],
        ListItem::InvocationArgParam => seq![lower_letters()[k]] + ": InvocationArg"@,
        ListItem::InstanceBound => seq![upper_letters()[k]] + ": jbuchong::TryFromInstanceTrait"@,
        ListItem::ContravariantParam => "in "@ + seq![upper_letters()[k]],
        ListItem::PairTypeThenUpper => if k == 0 {
            "Pair<A, B>"@
        } else {
            seq![upper_letters()[k + 1]]
        },
        ListItem::IndexedParam => "p"@ + decimal(k as nat) + ":"@ + seq![upper_letters()[k]],
        ListItem::PairValueThenIndex => if k == 0 {
            "Pair(p0, p1)"@
        } else {
            "p"@ + decimal((k + 1) as nat)
        },
    }
}

/// The item at `k` names a letter that exists.
spec fn item_fits(form: ListItem, k: int) -> bool {
    &&& 0 <= k
    &&& match form {
        ListItem::Upper(o) => k + o < 16,
        ListItem::Lower(o) => k + o < 16,
        ListItem::LowerTyped(o) => k + o < 16,
        ListItem::PairTypeThenUpper => k + 1 < 16,
        ListItem::PairValueThenIndex => k + 1 < usize::MAX,
        _ => k < 16,
    }
}

fn item_text(form: &ListItem, k: usize) -> (r: String)
    requires
        item_fits(*form, k as int),
    ensures
        r@ == item_spec(*form, k as int),
{
    let mut s = String::new();
    match form {
        ListItem::Upper(o) => {
            append_upper_letter(&mut s, k + *o);
        },
        ListItem::Lower(o) => {
            append_lower_letter(&mut s, k + *o);
        },
        ListItem::LowerTyped(o) => {
            append_lower_letter(&mut s, k + *o);
            s.append(": ");
            append_upper_letter(&mut s, k + *o);
        },
        ListItem::InvocationArgParam => {
            append_lower_letter(&mut s, k);
            s.append(": InvocationArg");
        },
        ListItem::InstanceBound => {
            append_upper_letter(&mut s, k);
            s.append(": jbuchong::TryFromInstanceTrait");
        },
        ListItem::ContravariantParam => {
            s.append("in ");
            append_upper_letter(&mut s, k);
        },
        ListItem::PairTypeThenUpper => {
            if k == 0 {
                s.append("Pair<A, B>");
            } else {
                append_upper_letter(&mut s, k + 1);
            }
        },
        ListItem::IndexedParam => {
            s.append("p");
            append_decimal(&mut s, k);
            s.append(":");
            append_upper_letter(&mut s, k);
        },
        ListItem::PairValueThenIndex => {
            if k == 0 {
                s.append("Pair(p0, p1)");
            } else {
                s.append("p");
                append_decimal(&mut s, k + 1);
            }
        },
    }
    assert(s@ =~= item_spec(*form, k as int));
    s
}

/// The first `count` items of the given shape, `sep` between each two.
fn build_list(form: &ListItem, count: usize, sep: &str) -> (r: String)
    requires
        forall|k: int| 0 <= k < count ==> item_fits(*form, k),
    ensures
        r@ == join(Seq::new(count as nat, |k: int| item_spec(*form, k)), sep@),
{
    let ghost items = Seq::new(count as nat, |k: int| item_spec(*form, k));
    let mut s = String::new();
    let mut i: usize = 0;
    while i < count
        invariant
            i <= count,
            items == Seq::new(count as nat, |k: int| item_spec(*form, k)),
            forall|k: int| 0 <= k < count ==> item_fits(*form, k),
            s@ == join(items.take(i as int), sep@),
        decreases count - i,
    {
        proof {
            lemma_join_take_next(items, sep@, i as int);
        }
        let item = item_text(form, i);
        if i == 0 {
            s = item;
        } else {
            s.append(sep);
            s.append(item.as_str());
        }
        i = i + 1;
    }
    assert(items.take(count as int) =~= items);
    s
}

// ---------------------------------------------------------------------------
// The generators.
// ---------------------------------------------------------------------------

/// The Rust items of the Kotlin function type with `n` parameters
/// (`2 <= n <= 16`, one letter per parameter).
pub fn impl_kt_func_n_(n: usize) -> (r: String)
    requires
        2 <= n <= 16,
    ensures
        r@ == kt_func_impl_text(n as nat),
{
    let mut func_name = String::from_str("Func");
    append_decimal(&mut func_name, n);
    let mut prev_func_name = String::from_str("Func");
    append_decimal(&mut prev_func_name, n - 1);
    let type_params = build_list(&ListItem::Upper(2), n - 2, ", ");
    assert(Seq::new((n - 2) as nat, |k: int| item_spec(ListItem::Upper(2), k)) =~= Seq::new(
        (n - 2) as nat,
        |k: int| seq![upper_letters()[k + 2]],
    ));
    let args_1 = build_list(&ListItem::LowerTyped(2), n - 2, ", ");
    assert(Seq::new((n - 2) as nat, |k: int| item_spec(ListItem::LowerTyped(2), k)) =~= Seq::new(
        (n - 2) as nat,
        |k: int| seq![lower_letters()[k + 2]] + ": "@ + seq![upper_letters()[k + 2]],
    ));
    let args_2 = build_list(&ListItem::InvocationArgParam, n, ", ");
    assert(Seq::new(n as nat, |k: int| item_spec(ListItem::InvocationArgParam, k)) =~= Seq::new(
        n as nat,
        |k: int| seq![lower_letters()[k]] + ": InvocationArg"@,
    ));
    let call_args = build_list(&ListItem::Lower(2), n - 2, ", ");
    assert(Seq::new((n - 2) as nat, |k: int| item_spec(ListItem::Lower(2), k)) =~= Seq::new(
        (n - 2) as nat,
        |k: int| seq![lower_letters()[k + 2]],
    ));
    let where_params = build_list(&ListItem::InstanceBound, n, ",\n");
    assert(Seq::new(n as nat, |k: int| item_spec(ListItem::InstanceBound, k)) =~= Seq::new(
        n as nat,
        |k: int| seq![upper_letters()[k]] + ": jbuchong::TryFromInstanceTrait"@,
    ));
    let mut class_name = String::from_str("JBuChongKt");
    class_name.append(func_name.as_str());
    let mut qualified = String::from_str("\"");
    qualified.append("io.github.worksoup.function");
    qualified.append(".");
    qualified.append(class_name.as_str());
    qualified.append("\"");
    let mut delegate = String::new();
    delegate.append(prev_func_name.as_str());
    delegate.append("<jbuchong::KotlinPair<A, B>, ");
    delegate.append(type_params.as_str());
    delegate.append(", R>");
    let mut invoke_head = String::from_str("pub fn invoke(&self, ");
    invoke_head.append(args_2.as_str());
    invoke_head.append(")");
let mut part1 = String::from_str("\n#[jbuchong::java]\npub struct ");
    part1.append(func_name.as_str());
    part1.append("<A, B, ");
    part1.append(type_params.as_str());
    part1.append(", R> {\n    instance: Instance,\n    func: ");
    let mut part2 = String::from_str(",\n}\nimpl<A, B, ");
    part2.append(type_params.as_str());
    part2.append(", R> ");
    part2.append(func_name.as_str());
    part2.append("<A, B, ");
    part2.append(type_params.as_str());
    part2.append(", R> {\n    pub fn drop(self) {\n        self.func.drop()\n    }\n    pub fn call(&self, a: A, b: B, ");
    part2.append(args_1.as_str());
    part2.append(") -> R {\n        self.func.call(jbuchong::KotlinPair::new(a, b), ");
    part2.append(call_args.as_str());
    part2.append(")\n    }\n}\nimpl<A, B, ");
    part2.append(type_params.as_str());
    part2.append(", R> ");
    part2.append(func_name.as_str());
    part2.append("<A, B, ");
    part2.append(type_params.as_str());
    part2.append(", R>\nwhere\n    R: jbuchong::TryFromInstanceTrait,\n{\n    ");
    let mut part3 = String::from_str(" -> Result<R, J4RsError> {\n        let jvm = Jvm::attach_thread()?;\n        let result = jvm.invoke(&jbuchong::GetInstanceTrait::get_instance(self)?, \"invoke\", &[a, b, ");
    part3.append(call_args.as_str());
    part3.append("])?;\n        R::try_from_instance(result)\n    }\n}\n\nimpl<A, B, ");
    part3.append(type_params.as_str());
    part3.append(", R> ");
    part3.append(func_name.as_str());
    part3.append("<A, B, ");
    part3.append(type_params.as_str());
    part3.append(", R>\nwhere\n    ");
    part3.append(where_params.as_str());
    part3.append(",\n    R: jbuchong::GetInstanceTrait,\n{\n    pub fn new<Func>(closure: Func) -> ");
    part3.append(func_name.as_str());
    part3.append("<A, B, ");
    part3.append(type_params.as_str());
    part3.append(", R>\n    where\n        Func: Fn(A, B, ");
    part3.append(type_params.as_str());
    part3.append(") -> R + 'static,\n    {\n        let internal_fn = move |v: jbuchong::KotlinPair<A, B>, ");
    part3.append(args_1.as_str());
    part3.append("| -> R { let (a, b) = v.into_inner(); closure(a, b, ");
    part3.append(call_args.as_str());
    part3.append(") };\n        let func = ");
    part3.append(prev_func_name.as_str());
    part3.append("::new(internal_fn);\n        let jvm = Jvm::attach_thread().unwrap();\n        let instance = jvm\n            .create_instance(\n                ");
    let mut part4 = String::from_str(",\n                &[InvocationArg::from(jbuchong::GetInstanceTrait::get_instance(&func).unwrap())],\n            )\n            .unwrap();\n        ");
    part4.append(func_name.as_str());
    part4.append(" { instance, func }\n    }\n}\n        ");
    proof {
        reveal(kt_impl_part1);
        reveal(kt_impl_part2);
        reveal(kt_impl_part3);
        reveal(kt_impl_part4);
    }
    let mut s = part1;
    s.append(delegate.as_str());
    s.append(part2.as_str());
    s.append(invoke_head.as_str());
    s.append(part3.as_str());
    s.append(qualified.as_str());
    s.append(part4.as_str());
    assert(delegate@ =~= kt_delegate_type(n as nat));
    s
}

/// The whole generated module of the Kotlin function types with three to
/// sixteen parameters.
pub fn kt_func_impls_source() -> (r: String)
    ensures
        r@ == kt_func_impls_text(),
{
    let ghost items = seq![kt_func_imports()] + Seq::new(14, |k: int| kt_func_impl_text((k + 3) as nat));
    let mut s = String::from_str("\nuse crate::Func2;\nuse j4rs::errors::J4RsError;\nuse j4rs::{{Instance, InvocationArg, Jvm}};\n    ");
    proof {
        lemma_join_take_next(items, "\n"@, 0);
    }
    let mut n: usize = 3;
    while n <= 16
        invariant
            3 <= n <= 17,
            items == seq![kt_func_imports()] + Seq::new(14, |k: int| kt_func_impl_text((k + 3) as nat)),
            s@ == join(items.take(n - 2), "\n"@),
        decreases 17 - n,
    {
        proof {
            lemma_join_take_next(items, "\n"@, n - 2);
        }
        let part = impl_kt_func_n_(n);
        s.append("\n");
        s.append(part.as_str());
        n = n + 1;
    }
    assert(items.take(15) =~= items);
    s
}

/// The Kotlin class for the function type with `pc` parameters
/// (`2 <= pc <= 16`), on the Java side of the bridge.
pub fn jvm_side_kt_func(pc: usize) -> (r: String)
    requires
        2 <= pc <= 16,
    ensures
        r@ == kt_class_text(pc as nat),
{
    let mut pc_text = String::new();
    append_decimal(&mut pc_text, pc);
    let tp1 = build_list(&ListItem::ContravariantParam, pc, ", ");
    assert(Seq::new(pc as nat, |k: int| item_spec(ListItem::ContravariantParam, k)) =~= Seq::new(
        pc as nat,
        |k: int| "in "@ + seq![upper_letters()[k]],
    ));
    let tp2 = build_list(&ListItem::PairTypeThenUpper, pc - 1, ", ");
    assert(Seq::new((pc - 1) as nat, |k: int| item_spec(ListItem::PairTypeThenUpper, k)) =~= seq![
        "Pair<A, B>"@,
    ] + Seq::new((pc - 2) as nat, |k: int| seq![upper_letters()[k + 2]]));
    let tp3 = build_list(&ListItem::Upper(0), pc, ", ");
    assert(Seq::new(pc as nat, |k: int| item_spec(ListItem::Upper(0), k)) =~= Seq::new(
        pc as nat,
        |k: int| seq![upper_letters()[k]],
    ));
    let tp4 = build_list(&ListItem::IndexedParam, pc, ", ");
    assert(Seq::new(pc as nat, |k: int| item_spec(ListItem::IndexedParam, k)) =~= Seq::new(
        pc as nat,
        |k: int| "p"@ + decimal(k as nat) + ":"@ + seq![upper_letters()[k]],
    ));
    let tp5 = build_list(&ListItem::PairValueThenIndex, pc - 1, ", ");
    assert(Seq::new((pc - 1) as nat, |k: int| item_spec(ListItem::PairValueThenIndex, k)) =~= seq![
        "Pair(p0, p1)"@,
    ] + Seq::new((pc - 2) as nat, |k: int| "p"@ + decimal((k + 2) as nat)));
    let mut func_name = String::from_str("Func");
    append_decimal(&mut func_name, pc);
    let mut class_name = String::from_str("JBuChongKt");
    class_name.append(func_name.as_str());
    let mut prev_func_name = String::from_str("Func");
    append_decimal(&mut prev_func_name, pc - 1);
    let mut prev_class_name = String::from_str("JBuChongKt");
    prev_class_name.append(prev_func_name.as_str());
    let mut head = String::from_str("package ");
    head.append("io.github.worksoup.function");
    head.append("\n\n");
    head.append("class ");
    head.append(class_name.as_str());
    head.append("<");
    head.append(tp1.as_str());
    head.append(", out R>(private var func: ");
    let mut delegate = String::new();
    delegate.append(prev_class_name.as_str());
    delegate.append("<");
    delegate.append(tp2.as_str());
    delegate.append(", R>");
    let mut middle = String::from_str(") :\n    Function");
    middle.append(pc_text.as_str());
    middle.append("<");
    middle.append(tp3.as_str());
    middle.append(", R> {\n    ");
    let mut invoke_head = String::from_str("override fun invoke(");
    invoke_head.append(tp4.as_str());
    invoke_head.append("): R");
    let mut tail = String::from_str(" {\n        return func(");
    tail.append(tp5.as_str());
    tail.append(")\n    }\n}");
    let mut s = head;
    s.append(delegate.as_str());
    s.append(middle.as_str());
    s.append(invoke_head.as_str());
    s.append(tail.as_str());
    assert(delegate@ =~= kt_class_delegate(pc as nat));
    s
}

} // verus!
