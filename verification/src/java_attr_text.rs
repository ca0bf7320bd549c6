//! The text that the attributes `java_type`, `java` and `java_all` write:
//! the item itself, with an impl of `GetClassTypeTrait` or with the derives
//! and attributes that bind it to a Java class.
use vstd::prelude::*;
use vstd::string::{StrSliceExecFns, StringExecFns};
use crate::derive_text::{
    impl_generics, impl_generics_text, param_views, result_view, type_generics, type_generics_text,
    DeriveError,
};
use crate::item::{parsed_item, read_item, GenericKind, GenericParts, ItemShape, ItemV, ParamV};
use crate::java_type::{
    attr_parts, attr_well_formed, binding_at, binding_views, is_str_literal, keeps_generic_param,
    lookup_binding, parse_java_type_attr, parses_as_str_literal, substitute_ty_generics,
    substituted_generics, JavaTypeAttr, JavaTypeAttrError,
};

verus! {

// ---------------------------------------------------------------------------
// `java_type`: the impl of `GetClassTypeTrait`.
// ---------------------------------------------------------------------------

/// The bindings that the arguments of `java_type` give, in order.
pub open spec fn attr_bindings(attr: Seq<char>) -> Seq<(Seq<char>, Seq<char>)> {
    Seq::new((attr_parts(attr).len() - 1) as nat, |k: int| binding_at(attr, k))
}

/// The generic parameters that the impl keeps: every lifetime, and every
/// other parameter that no binding names.
pub open spec fn kept_params(ps: Seq<ParamV>, bindings: Seq<(Seq<char>, Seq<char>)>) -> Seq<ParamV>
    decreases ps.len(),
{
    if ps.len() == 0 {
        Seq::empty()
    } else {
        let before = kept_params(ps.drop_last(), bindings);
        let p = ps.last();
        if p.kind == GenericKind::Lifetime || lookup_binding(bindings, p.name) is None {
            before.push(p)
        } else {
            before
        }
    }
}

/// The methods of `GetClassTypeTrait` before the class name.
pub open spec fn class_methods_head() -> Seq<char> {
    "    fn get_class_type() -> j4rs::Instance {\n        j4rs::Jvm::attach_thread()\n            .unwrap()\n            .invoke_static(\n                \"io.github.worksoup.JBuChongUtils\",\n                \"forName\",\n                &[j4rs::InvocationArg::try_from(Self::get_type_name()).unwrap()],\n            )\n            .unwrap()\n    }\n    fn cast_to_this_type(instance: j4rs::Instance) -> j4rs::Instance {\n        let jvm = j4rs::Jvm::attach_thread().unwrap();\n        jvm.cast(&instance, Self::get_type_name()).unwrap()\n    }\n    fn get_type_name() -> &'static str {\n        "@
}

/// The methods of `GetClassTypeTrait` after the class name.
pub open spec fn class_methods_tail() -> Seq<char> {
    "\n    }\n    fn is_this_type(instance: &j4rs::Instance) -> bool {\n        jbuchong::utils::is_instance_of(&instance, Self::get_type_name())\n    }\n}\n"@
}

/// The item followed by the impl of `GetClassTypeTrait` for it, with the
/// Java class name `name_lit` (a string literal) and the generic parameters
/// that the bindings name replaced by their bindings.
pub open spec fn class_type_impl(item: ItemV, name_lit: Seq<char>, bindings: Seq<(Seq<char>, Seq<char>)>) -> Seq<char> {
    item.head.text + "\nimpl"@ + impl_generics(kept_params(item.params, bindings))
        + " jbuchong::GetClassTypeTrait for "@ + item.head.name + " "@
        + substituted_generics(type_generics(item.params), bindings) + " "@ + item.head.where_clause + " {\n"@
        + class_methods_head() + name_lit + class_methods_tail()
}

/// What `java_type` writes: the item is read first, then the arguments.
pub open spec fn java_type_outcome(attr: Seq<char>, item: Option<ItemV>, name_is_literal: bool) -> Result<
    Seq<char>,
    DeriveError,
> {
    match item {
        None => Err(DeriveError::NotAnItem),
        Some(v) => if !name_is_literal {
            Err(DeriveError::ClassNameNotStringLiteral)
        } else if !attr_well_formed(attr) {
            Err(DeriveError::MalformedBinding)
        } else {
            Ok(class_type_impl(v, attr_parts(attr)[0], attr_bindings(attr)))
        },
    }
}

fn kept_params_exec(ps: &Vec<GenericParts>, attr: &JavaTypeAttr) -> (r: Vec<GenericParts>)
    ensures
        param_views(r@) == kept_params(param_views(ps@), binding_views(attr.bindings@)),
{
    let ghost all = param_views(ps@);
    let ghost b = binding_views(attr.bindings@);
    let mut r: Vec<GenericParts> = Vec::new();
    let mut i: usize = 0;
    while i < ps.len()
        invariant
            i <= ps@.len(),
            all == param_views(ps@),
            b == binding_views(attr.bindings@),
            param_views(r@) == kept_params(all.take(i as int), b),
        decreases ps@.len() - i,
    {
        assert(all.take(i + 1).drop_last() =~= all.take(i as int));
        assert(all.take(i + 1).last() == ps@[i as int]@);
        let p = &ps[i];
        if keeps_generic_param(p.kind == GenericKind::Lifetime, p.name.as_str(), attr) {
            let ghost before = param_views(r@);
            let q = GenericParts { kind: p.kind, name: p.name.clone(), bounds: p.bounds.clone(), ty: p.ty.clone() };
            r.push(q);
            assert(param_views(r@) =~= before.push(ps@[i as int]@));
        }
        i = i + 1;
    }
    assert(all.take(ps@.len() as int) =~= all);
    r
}

/// The item followed by the impl of `GetClassTypeTrait` for it, as the read
/// arguments of `java_type` ask.
pub fn class_type_impl_text(item: &ItemShape, attr: &JavaTypeAttr) -> (r: String)
    ensures
        r@ == class_type_impl(item@, attr.java_name@, binding_views(attr.bindings@)),
{
    let kept = kept_params_exec(&item.params, attr);
    let ig = impl_generics_text(&kept);
    let tg = type_generics_text(&item.params);
    let tg2 = substitute_ty_generics(tg.as_str(), attr);
    assert(param_views(item.params@) =~= item@.params);
    let mut s = item.head.text.clone();
    s.append("\nimpl");
    s.append(ig.as_str());
    s.append(" jbuchong::GetClassTypeTrait for ");
    s.append(item.head.name.as_str());
    s.append(" ");
    s.append(tg2.as_str());
    s.append(" ");
    s.append(item.head.where_clause.as_str());
    s.append(" {\n");
    s.append("    fn get_class_type() -> j4rs::Instance {\n        j4rs::Jvm::attach_thread()\n            .unwrap()\n            .invoke_static(\n                \"io.github.worksoup.JBuChongUtils\",\n                \"forName\",\n                &[j4rs::InvocationArg::try_from(Self::get_type_name()).unwrap()],\n            )\n            .unwrap()\n    }\n    fn cast_to_this_type(instance: j4rs::Instance) -> j4rs::Instance {\n        let jvm = j4rs::Jvm::attach_thread().unwrap();\n        jvm.cast(&instance, Self::get_type_name()).unwrap()\n    }\n    fn get_type_name() -> &'static str {\n        ");
    s.append(attr.java_name);
    s.append("\n    }\n    fn is_this_type(instance: &j4rs::Instance) -> bool {\n        jbuchong::utils::is_instance_of(&instance, Self::get_type_name())\n    }\n}\n");
    s
}

/// `java_type`: the item whose tokens `input` holds, followed by the impl of
/// `GetClassTypeTrait` that the arguments `attr` ask for.
pub fn java_type_text(attr: &str, input: &str) -> (r: Result<String, DeriveError>)
    ensures
        result_view(r) == java_type_outcome(attr@, parsed_item(input@), is_str_literal(attr_parts(attr@)[0])),
{
    let item = match read_item(input) {
        None => return Err(DeriveError::NotAnItem),
        Some(item) => item,
    };
    match parse_java_type_attr(attr) {
        Err(JavaTypeAttrError::ClassNameNotStringLiteral) => Err(DeriveError::ClassNameNotStringLiteral),
        Err(JavaTypeAttrError::MalformedBinding) => Err(DeriveError::MalformedBinding),
        Ok(a) => {
            assert(binding_views(a.bindings@) =~= attr_bindings(attr@));
            Ok(class_type_impl_text(&item, &a))
        },
    }
}

// ---------------------------------------------------------------------------
// `java` and `java_all`: the derives and the `java_type` attribute.
// ---------------------------------------------------------------------------

/// The derives that `java` puts on the item.
pub open spec fn java_derives() -> Seq<char> {
    "#[derive(jbuchong::AsInstanceDerive, jbuchong::GetInstanceDerive, jbuchong::ToArgDerive, jbuchong::IntoArgDerive)]\n"@
}

/// What `java` writes: the item with the derives, and with `java_type`
/// where a class name is given, which must be a string literal.
pub open spec fn java_outcome(class_name: Seq<char>, item: Option<ItemV>, name_is_literal: bool) -> Result<
    Seq<char>,
    DeriveError,
> {
    match item {
        None => Err(DeriveError::NotAnItem),
        Some(v) => if class_name.len() == 0 {
            Ok(java_derives() + v.head.text)
        } else if !name_is_literal {
            Err(DeriveError::ClassNameNotStringLiteral)
        } else {
            Ok(java_derives() + "#[jbuchong::java_type("@ + class_name + ")]\n"@ + v.head.text)
        },
    }
}

/// What `java_all` writes: what `java` writes, with `TryFromInstanceDerive`
/// in front.
pub open spec fn java_all_outcome(class_name: Seq<char>, item: Option<ItemV>, name_is_literal: bool) -> Result<
    Seq<char>,
    DeriveError,
> {
    match java_outcome(class_name, item, name_is_literal) {
        Ok(t) => Ok("#[derive(jbuchong::TryFromInstanceDerive)]\n"@ + t),
        Err(e) => Err(e),
    }
}

/// The item with the derives of `java`, and with `java_type` where
/// `class_name` is not empty; `class_name_is_literal` tells whether it is a
/// string literal.
pub fn java_item_text(class_name: &str, item: &ItemShape, class_name_is_literal: bool) -> (r: Result<String, DeriveError>)
    ensures
        result_view(r) == java_outcome(class_name@, Some(item@), class_name_is_literal),
{
    let mut s = String::from_str(
        "#[derive(jbuchong::AsInstanceDerive, jbuchong::GetInstanceDerive, jbuchong::ToArgDerive, jbuchong::IntoArgDerive)]\n",
    );
    if class_name.unicode_len() != 0 {
        if !class_name_is_literal {
            return Err(DeriveError::ClassNameNotStringLiteral);
        }
        s.append("#[jbuchong::java_type(");
        s.append(class_name);
        s.append(")]\n");
    }
    s.append(item.head.text.as_str());
    Ok(s)
}

/// `java`: the item whose tokens `input` holds, with the derives of the
/// traits of the Java object and, where `class_name` is given, `java_type`.
pub fn java_text(class_name: &str, input: &str) -> (r: Result<String, DeriveError>)
    ensures
        result_view(r) == java_outcome(class_name@, parsed_item(input@), is_str_literal(class_name@)),
{
    let item = match read_item(input) {
        None => return Err(DeriveError::NotAnItem),
        Some(item) => item,
    };
    let is_literal = if class_name.unicode_len() == 0 {
        false
    } else {
        parses_as_str_literal(class_name)
    };
    java_item_text(class_name, &item, is_literal)
}

/// `java_all`: what `java` writes, with `TryFromInstanceDerive` in front.
pub fn java_all_text(class_name: &str, input: &str) -> (r: Result<String, DeriveError>)
    ensures
        result_view(r) == java_all_outcome(class_name@, parsed_item(input@), is_str_literal(class_name@)),
{
    match java_text(class_name, input) {
        Err(e) => Err(e),
        Ok(t) => {
            let mut s = String::from_str("#[derive(jbuchong::TryFromInstanceDerive)]\n");
            s.append(t.as_str());
            Ok(s)
        },
    }
}

/// The impl of `GetClassTypeTrait` keeps exactly the generic parameters
/// that are lifetimes or that no binding names, in their order; a bound
/// parameter is gone, replaced by its binding among the type's arguments
/// (see `lemma_binding_moves_param`).
pub proof fn lemma_kept_params(ps: Seq<ParamV>, bindings: Seq<(Seq<char>, Seq<char>)>)
    ensures
        forall|p: ParamV|
            kept_params(ps, bindings).contains(p) <==> ps.contains(p) && (p.kind == GenericKind::Lifetime
                || lookup_binding(bindings, p.name) is None),
        kept_params(ps, bindings).len() <= ps.len(),
    decreases ps.len(),
{
    if ps.len() > 0 {
        let q = ps.drop_last();
        let last = ps.last();
        lemma_kept_params(q, bindings);
        let k = kept_params(q, bindings);
        let kept = kept_params(ps, bindings);
        let keeps_last = last.kind == GenericKind::Lifetime || lookup_binding(bindings, last.name) is None;
        if keeps_last {
            assert(kept == k.push(last));
            assert(kept[k.len() as int] == last);
        } else {
            assert(kept == k);
        }
        assert forall|p: ParamV|
            kept.contains(p) <==> ps.contains(p) && (p.kind == GenericKind::Lifetime || lookup_binding(
                bindings,
                p.name,
            ) is None) by {
            assert(ps[ps.len() - 1] == last);
            if ps.contains(p) && p != last {
                let j = choose|j: int| 0 <= j < ps.len() && ps[j] == p;
                assert(q[j] == p);
            }
            if q.contains(p) {
                let j = choose|j: int| 0 <= j < q.len() && q[j] == p;
                assert(ps[j] == p);
            }
            if kept.contains(p) && p != last {
                let j = choose|j: int| 0 <= j < kept.len() && kept[j] == p;
                assert(k[j] == p);
            }
            if k.contains(p) {
                let j = choose|j: int| 0 <= j < k.len() && k[j] == p;
                assert(kept[j] == p);
            }
        }
    }
}

/// `java_all` writes what `java` writes with `TryFromInstanceDerive` in
/// front, for every class name, the empty one too, and refuses what `java`
/// refuses with the same error.
pub proof fn lemma_java_all_is_java_with_try_from(class_name: Seq<char>, item: Option<ItemV>, name_is_literal: bool)
    ensures
        match (java_outcome(class_name, item, name_is_literal), java_all_outcome(class_name, item, name_is_literal)) {
            (Ok(t), Ok(u)) => u == "#[derive(jbuchong::TryFromInstanceDerive)]\n"@ + t,
            (Err(a), Err(b)) => a == b,
            _ => false,
        },
{
}

/// `java` keeps the item whole, after its attributes: every item is
/// accepted without a class name; with one, exactly when it is a string
/// literal, and then `java_type` is given that literal.
pub proof fn lemma_java_keeps_the_item(class_name: Seq<char>, v: ItemV, name_is_literal: bool)
    ensures
        (java_outcome(class_name, Some(v), name_is_literal) is Ok) <==> (class_name.len() == 0 || name_is_literal),
        java_outcome(class_name, Some(v), name_is_literal) matches Ok(t) ==> {
            &&& t.take(java_derives().len() as int) == java_derives()
            &&& t.skip(t.len() - v.head.text.len()) == v.head.text
            &&& class_name.len() == 0 ==> t.len() == java_derives().len() + v.head.text.len()
            &&& class_name.len() > 0 ==> t.subrange(
                java_derives().len() as int,
                t.len() - v.head.text.len(),
            ) == "#[jbuchong::java_type("@ + class_name + ")]\n"@
        },
        java_outcome(class_name, None, name_is_literal) == Err::<Seq<char>, DeriveError>(DeriveError::NotAnItem),
{
    let d = java_derives();
    match java_outcome(class_name, Some(v), name_is_literal) {
        Ok(t) => {
            if class_name.len() == 0 {
                assert(t.take(d.len() as int) =~= d);
                assert(t.skip(t.len() - v.head.text.len()) =~= v.head.text);
            } else {
                let mid = "#[jbuchong::java_type("@ + class_name + ")]\n"@;
                assert(t =~= d + mid + v.head.text);
                assert(t.take(d.len() as int) =~= d);
                assert(t.skip(t.len() - v.head.text.len()) =~= v.head.text);
                assert(t.subrange(d.len() as int, t.len() - v.head.text.len()) =~= mid);
            }
        },
        Err(_) => {},
    }
}


/// The parameters the impl keeps are the item's parameters filtered by
/// whether they are lifetimes or unbound, in their order.
pub proof fn lemma_kept_params_filter(ps: Seq<ParamV>, bindings: Seq<(Seq<char>, Seq<char>)>)
    ensures
        kept_params(ps, bindings) == ps.filter(
            |p: ParamV| p.kind == GenericKind::Lifetime || lookup_binding(bindings, p.name) is None,
        ),
    decreases ps.len(),
{
    reveal(Seq::filter);
    if ps.len() > 0 {
        lemma_kept_params_filter(ps.drop_last(), bindings);
    }
}

} // verus!
