//! The text of the impls that the derives and attributes write, from the
//! text of the item they are applied to.
use vstd::prelude::*;
use vstd::string::{StrSliceExecFns, StringExecFns};
use crate::derive_plan::{instance_field, only_marked_at};
use crate::item::{
    read_item, parsed_item, FieldV, AttrV, GenericKind, GenericParts, ItemShape, ItemV, ParamV,
};
use crate::text::{join, lemma_join_take_next, str_eq};

verus! {

/// Why a derive cannot write its impl.
#[derive(Debug, PartialEq, Eq, Structural, Clone, Copy)]
pub enum DeriveError {
    /// The input is not an item that a derive can be applied to.
    NotAnItem,
    /// The item is a union.
    Union,
    /// The struct has not exactly one field of type `Instance`.
    InstanceFieldCount,
    /// A `#[default(..)]` attribute of a field is neither
    /// `value = ..` nor `fn_name = ..`.
    MalformedDefault,
    /// The variant at this index has parentheses but no field in them.
    EmptyTupleVariant(usize),
    /// The variant at this index has named fields.
    NamedVariant(usize),
    /// The Java class name is not a string literal.
    ClassNameNotStringLiteral,
    /// A binding after the Java class name has no `=`.
    MalformedBinding,
}

// ---------------------------------------------------------------------------
// Joining texts.
// ---------------------------------------------------------------------------

/// The texts one after another.
pub open spec fn concat(items: Seq<Seq<char>>) -> Seq<char>
    decreases items.len(),
{
    if items.len() == 0 {
        Seq::empty()
    } else {
        concat(items.drop_last()) + items.last()
    }
}

/// The views of some strings.
pub open spec fn string_views(items: Seq<String>) -> Seq<Seq<char>> {
    items.map_values(|s: String| s@)
}

/// The strings, `sep` between each two.
pub fn join_strings(items: &Vec<String>, sep: &str) -> (r: String)
    ensures
        r@ == join(string_views(items@), sep@),
{
    let ghost v = string_views(items@);
    let mut s = String::new();
    let mut i: usize = 0;
    while i < items.len()
        invariant
            i <= items@.len(),
            v == string_views(items@),
            s@ == join(v.take(i as int), sep@),
        decreases items@.len() - i,
    {
        proof {
            lemma_join_take_next(v, sep@, i as int);
        }
        if i == 0 {
            s = items[0].clone();
        } else {
            s.append(sep);
            s.append(items[i].as_str());
        }
        i = i + 1;
    }
    assert(v.take(items@.len() as int) =~= v);
    s
}

/// The strings one after another.
pub fn concat_strings(items: &Vec<String>) -> (r: String)
    ensures
        r@ == concat(string_views(items@)),
{
    let ghost v = string_views(items@);
    let mut s = String::new();
    let mut i: usize = 0;
    while i < items.len()
        invariant
            i <= items@.len(),
            v == string_views(items@),
            s@ == concat(v.take(i as int)),
        decreases items@.len() - i,
    {
        assert(v.take(i + 1).drop_last() =~= v.take(i as int));
        s.append(items[i].as_str());
        i = i + 1;
    }
    assert(v.take(items@.len() as int) =~= v);
    s
}

// ---------------------------------------------------------------------------
// Generics.
// ---------------------------------------------------------------------------

/// A parameter as it is declared in an impl: with its bounds, a const
/// parameter with its type, and no default.
pub open spec fn param_decl(p: ParamV) -> Seq<char> {
    match p.kind {
        GenericKind::Const => "const "@ + p.name + " : "@ + p.ty,
        _ => if p.bounds.len() == 0 {
            p.name
        } else {
            p.name + " : "@ + p.bounds
        },
    }
}

/// A parameter declared (`decl`) or by its name.
pub open spec fn param_text(p: ParamV, decl: bool) -> Seq<char> {
    if decl {
        param_decl(p)
    } else {
        p.name
    }
}

/// The texts of the lifetimes among the parameters, in order.
pub open spec fn lifetime_texts(ps: Seq<ParamV>, decl: bool) -> Seq<Seq<char>>
    decreases ps.len(),
{
    if ps.len() == 0 {
        Seq::empty()
    } else if ps.last().kind == GenericKind::Lifetime {
        lifetime_texts(ps.drop_last(), decl).push(param_text(ps.last(), decl))
    } else {
        lifetime_texts(ps.drop_last(), decl)
    }
}

/// The texts of the other parameters, in order.
pub open spec fn other_texts(ps: Seq<ParamV>, decl: bool) -> Seq<Seq<char>>
    decreases ps.len(),
{
    if ps.len() == 0 {
        Seq::empty()
    } else if ps.last().kind != GenericKind::Lifetime {
        other_texts(ps.drop_last(), decl).push(param_text(ps.last(), decl))
    } else {
        other_texts(ps.drop_last(), decl)
    }
}

/// A list in angle brackets; nothing for an empty list.
pub open spec fn angled(items: Seq<Seq<char>>) -> Seq<char> {
    if items.len() == 0 {
        Seq::empty()
    } else {
        "<"@ + join(items, ", "@) + ">"@
    }
}

/// The generics of an impl: the parameters declared, lifetimes first.
pub open spec fn impl_generics(ps: Seq<ParamV>) -> Seq<char> {
    angled(lifetime_texts(ps, true) + other_texts(ps, true))
}

/// The generic arguments of the type: the parameters' names, lifetimes
/// first.
pub open spec fn type_generics(ps: Seq<ParamV>) -> Seq<char> {
    angled(lifetime_texts(ps, false) + other_texts(ps, false))
}

fn param_text_exec(p: &GenericParts, decl: bool) -> (r: String)
    ensures
        r@ == param_text(p@, decl),
{
    if !decl {
        return p.name.clone();
    }
    match p.kind {
        GenericKind::Const => {
            let mut s = String::from_str("const ");
            s.append(p.name.as_str());
            s.append(" : ");
            s.append(p.ty.as_str());
            s
        },
        _ => {
            let mut s = p.name.clone();
            if p.bounds.as_str().unicode_len() != 0 {
                s.append(" : ");
                s.append(p.bounds.as_str());
            }
            s
        },
    }
}

/// The views of some parameters.
pub open spec fn param_views(ps: Seq<GenericParts>) -> Seq<ParamV> {
    ps.map_values(|p: GenericParts| p@)
}

/// Appends every string of `b` to `a`.
fn extend_strings(a: &mut Vec<String>, b: &Vec<String>)
    ensures
        string_views(final(a)@) == string_views(old(a)@) + string_views(b@),
{
    let ghost a0 = string_views(a@);
    let ghost bv = string_views(b@);
    let mut k: usize = 0;
    while k < b.len()
        invariant
            k <= b@.len(),
            bv == string_views(b@),
            string_views(a@) == a0 + bv.take(k as int),
        decreases b@.len() - k,
    {
        let ghost before = string_views(a@);
        let t = b[k].clone();
        a.push(t);
        assert(string_views(a@) =~= before.push(bv[k as int]));
        assert(a0 + bv.take(k + 1) =~= (a0 + bv.take(k as int)).push(bv[k as int]));
        k = k + 1;
    }
    assert(bv.take(b@.len() as int) =~= bv);
}

/// The texts of the parameters, lifetimes first: each declared, or each by
/// its name.
fn ordered_param_texts(ps: &Vec<GenericParts>, decl: bool) -> (r: Vec<String>)
    ensures
        string_views(r@) == lifetime_texts(param_views(ps@), decl) + other_texts(param_views(ps@), decl),
{
    let ghost all = param_views(ps@);
    let mut first: Vec<String> = Vec::new();
    let mut second: Vec<String> = Vec::new();
    let mut i: usize = 0;
    while i < ps.len()
        invariant
            i <= ps@.len(),
            all == param_views(ps@),
            string_views(first@) == lifetime_texts(all.take(i as int), decl),
            string_views(second@) == other_texts(all.take(i as int), decl),
        decreases ps@.len() - i,
    {
        assert(all.take(i + 1).drop_last() =~= all.take(i as int));
        assert(all.take(i + 1).last() == ps@[i as int]@);
        let t = param_text_exec(&ps[i], decl);
        if ps[i].kind == GenericKind::Lifetime {
            let ghost before = string_views(first@);
            first.push(t);
            assert(string_views(first@) =~= before.push(t@));
        } else {
            let ghost before = string_views(second@);
            second.push(t);
            assert(string_views(second@) =~= before.push(t@));
        }
        i = i + 1;
    }
    assert(all.take(ps@.len() as int) =~= all);
    extend_strings(&mut first, &second);
    first
}

fn angled_text(items: &Vec<String>) -> (r: String)
    ensures
        r@ == angled(string_views(items@)),
{
    if items.len() == 0 {
        String::new()
    } else {
        let mut s = String::from_str("<");
        let j = join_strings(items, ", ");
        s.append(j.as_str());
        s.append(">");
        s
    }
}

/// The generics of an impl over these parameters.
pub fn impl_generics_text(ps: &Vec<GenericParts>) -> (r: String)
    ensures
        r@ == impl_generics(param_views(ps@)),
{
    let t = ordered_param_texts(ps, true);
    angled_text(&t)
}

/// The generic arguments of a type with these parameters.
pub fn type_generics_text(ps: &Vec<GenericParts>) -> (r: String)
    ensures
        r@ == type_generics(param_views(ps@)),
{
    let t = ordered_param_texts(ps, false);
    angled_text(&t)
}

// ---------------------------------------------------------------------------
// The traits of the Java object: `GetInstanceTrait`, `AsInstanceTrait`,
// `ToArgTrait`, `IntoArgTrait`.
// ---------------------------------------------------------------------------

/// A trait that a struct implements through its one field of type
/// `Instance`, and an enum through the values its variants hold.
#[derive(PartialEq, Eq, Structural, Clone, Copy)]
pub enum InstanceTrait {
    /// `GetInstanceTrait`: a copy of the Java object.
    GetInstance,
    /// `AsInstanceTrait`: the Java object, borrowed.
    AsInstance,
    /// `ToArgTrait`: the Java object as a call argument, copied.
    ToArg,
    /// `IntoArgTrait`: the Java object as a call argument, moved.
    IntoArg,
}

/// The path of the trait.
pub open spec fn trait_path(t: InstanceTrait) -> Seq<char> {
    match t {
        InstanceTrait::GetInstance => "jbuchong::GetInstanceTrait"@,
        InstanceTrait::AsInstance => "jbuchong::AsInstanceTrait"@,
        InstanceTrait::ToArg => "jbuchong::ToArgTrait"@,
        InstanceTrait::IntoArg => "jbuchong::IntoArgTrait"@,
    }
}

/// The signature of the trait's method.
pub open spec fn method_sig(t: InstanceTrait) -> Seq<char> {
    match t {
        InstanceTrait::GetInstance => "fn get_instance(&self) -> Result<j4rs::Instance, j4rs::errors::J4RsError>"@,
        InstanceTrait::AsInstance => "fn as_instance(&self) -> &j4rs::Instance"@,
        InstanceTrait::ToArg => "fn to_arg(&self) -> Result<j4rs::InvocationArg, j4rs::errors::J4RsError>"@,
        InstanceTrait::IntoArg => "fn into_arg(self) -> Result<j4rs::InvocationArg, j4rs::errors::J4RsError>"@,
    }
}

/// The name of the trait's method.
pub open spec fn method_name(t: InstanceTrait) -> Seq<char> {
    match t {
        InstanceTrait::GetInstance => "get_instance"@,
        InstanceTrait::AsInstance => "as_instance"@,
        InstanceTrait::ToArg => "to_arg"@,
        InstanceTrait::IntoArg => "into_arg"@,
    }
}

/// The body of the method for a struct whose Java object is in `member`.
pub open spec fn struct_body(t: InstanceTrait, member: Seq<char>) -> Seq<char> {
    match t {
        InstanceTrait::GetInstance => "j4rs::Jvm::attach_thread()?.clone_instance(&self."@ + member + ")"@,
        InstanceTrait::AsInstance => "&self."@ + member,
        InstanceTrait::ToArg => "j4rs::InvocationArg::try_from(j4rs::Jvm::attach_thread()?.clone_instance(&self."@
            + member + "))"@,
        InstanceTrait::IntoArg => "Ok(j4rs::InvocationArg::try_from(self."@ + member + ")?)"@,
    }
}

fn trait_path_str(t: InstanceTrait) -> (r: &'static str)
    ensures
        r@ == trait_path(t),
{
    match t {
        InstanceTrait::GetInstance => "jbuchong::GetInstanceTrait",
        InstanceTrait::AsInstance => "jbuchong::AsInstanceTrait",
        InstanceTrait::ToArg => "jbuchong::ToArgTrait",
        InstanceTrait::IntoArg => "jbuchong::IntoArgTrait",
    }
}

fn method_sig_str(t: InstanceTrait) -> (r: &'static str)
    ensures
        r@ == method_sig(t),
{
    match t {
        InstanceTrait::GetInstance => "fn get_instance(&self) -> Result<j4rs::Instance, j4rs::errors::J4RsError>",
        InstanceTrait::AsInstance => "fn as_instance(&self) -> &j4rs::Instance",
        InstanceTrait::ToArg => "fn to_arg(&self) -> Result<j4rs::InvocationArg, j4rs::errors::J4RsError>",
        InstanceTrait::IntoArg => "fn into_arg(self) -> Result<j4rs::InvocationArg, j4rs::errors::J4RsError>",
    }
}

fn method_name_str(t: InstanceTrait) -> (r: &'static str)
    ensures
        r@ == method_name(t),
{
    match t {
        InstanceTrait::GetInstance => "get_instance",
        InstanceTrait::AsInstance => "as_instance",
        InstanceTrait::ToArg => "to_arg",
        InstanceTrait::IntoArg => "into_arg",
    }
}

fn struct_body_text(t: InstanceTrait, member: &str) -> (r: String)
    ensures
        r@ == struct_body(t, member@),
{
    match t {
        InstanceTrait::GetInstance => {
            let mut s = String::from_str("j4rs::Jvm::attach_thread()?.clone_instance(&self.");
            s.append(member);
            s.append(")");
            s
        },
        InstanceTrait::AsInstance => {
            let mut s = String::from_str("&self.");
            s.append(member);
            s
        },
        InstanceTrait::ToArg => {
            let mut s = String::from_str(
                "j4rs::InvocationArg::try_from(j4rs::Jvm::attach_thread()?.clone_instance(&self.",
            );
            s.append(member);
            s.append("))");
            s
        },
        InstanceTrait::IntoArg => {
            let mut s = String::from_str("Ok(j4rs::InvocationArg::try_from(self.");
            s.append(member);
            s.append(")?)");
            s
        },
    }
}

/// The head of an impl of the trait at `path` for the item.
pub open spec fn impl_header(item: ItemV, path: Seq<char>) -> Seq<char> {
    "impl"@ + impl_generics(item.params) + " "@ + path + " for "@ + item.head.name + " "@
        + type_generics(item.params) + " "@ + item.head.where_clause
}

pub(crate) fn impl_header_text(item: &ItemShape, path: &str) -> (r: String)
    ensures
        r@ == impl_header(item@, path@),
{
    let ig = impl_generics_text(&item.params);
    let tg = type_generics_text(&item.params);
    let mut s = String::from_str("impl");
    s.append(ig.as_str());
    s.append(" ");
    s.append(path);
    s.append(" for ");
    s.append(item.head.name.as_str());
    s.append(" ");
    s.append(tg.as_str());
    s.append(" ");
    s.append(item.head.where_clause.as_str());
    assert(param_views(item.params@) =~= item@.params);
    s
}

/// Which fields of the struct have the type `Instance`.
pub open spec fn instance_marks(item: ItemV) -> Seq<bool> {
    item.fields.map_values(|f: (FieldV, Seq<AttrV>)| f.0.last_segment == Some("Instance"@))
}

/// The arm of a `match self` for each variant, calling the method on the
/// value it holds.
pub open spec fn enum_arms(item: ItemV, method: Seq<char>) -> Seq<char> {
    concat(
        item.variants.map_values(
            |v: (crate::item::VariantV, Seq<AttrV>)| item.head.name + "::"@ + v.0.ident + "(a) => a."@ + method
                + "(),\n"@,
        ),
    )
}

/// The body of the method: through the one `Instance` field of a struct,
/// or by delegating to the value of each variant of an enum.
pub open spec fn instance_body(item: ItemV, t: InstanceTrait) -> Result<Seq<char>, DeriveError> {
    match item.head.kind {
        crate::item::ItemKind::Struct(_, _) => if exists|i: int| only_marked_at(instance_marks(item), i) {
            let i = choose|i: int| only_marked_at(instance_marks(item), i);
            Ok(struct_body(t, item.fields[i].0.member))
        } else {
            Err(DeriveError::InstanceFieldCount)
        },
        crate::item::ItemKind::Enum(_) => Ok("match self {\n"@ + enum_arms(item, method_name(t)) + "}"@),
        crate::item::ItemKind::Union => Err(DeriveError::Union),
    }
}

/// The impl of the trait for the item.
pub open spec fn instance_trait_impl(item: ItemV, t: InstanceTrait) -> Result<Seq<char>, DeriveError> {
    match instance_body(item, t) {
        Ok(b) => Ok(
            impl_header(item, trait_path(t)) + " {\n    "@ + method_sig(t) + " {\n        "@ + b
                + "\n    }\n}\n"@,
        ),
        Err(e) => Err(e),
    }
}

/// The text of a result.
pub open spec fn result_view(r: Result<String, DeriveError>) -> Result<Seq<char>, DeriveError> {
    match r {
        Ok(s) => Ok(s@),
        Err(e) => Err(e),
    }
}

fn is_instance_segment(seg: &Option<String>) -> (r: bool)
    ensures
        r == (match seg {
            Some(s) => Some(s@),
            None => None::<Seq<char>>,
        } == Some("Instance"@)),
{
    match seg {
        Some(s) => str_eq(s.as_str(), "Instance"),
        None => false,
    }
}

fn enum_arms_text(item: &ItemShape, method: &str) -> (r: String)
    ensures
        r@ == enum_arms(item@, method@),
{
    let mut arms: Vec<String> = Vec::new();
    let mut i: usize = 0;
    while i < item.variants.len()
        invariant
            i <= item.variants@.len(),
            arms@.len() == i,
            forall|k: int|
                0 <= k < i ==> (#[trigger] arms@[k])@ == item@.head.name + "::"@ + item@.variants[k].0.ident
                    + "(a) => a."@ + method@ + "(),\n"@,
        decreases item.variants@.len() - i,
    {
        let mut a = item.head.name.clone();
        a.append("::");
        a.append(item.variants[i].0.ident.as_str());
        a.append("(a) => a.");
        a.append(method);
        a.append("(),\n");
        arms.push(a);
        i = i + 1;
    }
    assert(string_views(arms@) =~= item@.variants.map_values(
        |v: (crate::item::VariantV, Seq<AttrV>)| item@.head.name + "::"@ + v.0.ident + "(a) => a."@ + method@
            + "(),\n"@,
    ));
    concat_strings(&arms)
}

proof fn lemma_only_marked_unique(marks: Seq<bool>, i: int, j: int)
    requires
        only_marked_at(marks, i),
        only_marked_at(marks, j),
    ensures
        i == j,
{
}

/// The impl of one of the traits of the Java object for the item.
pub fn instance_trait_impl_text(item: &ItemShape, t: InstanceTrait) -> (r: Result<String, DeriveError>)
    ensures
        result_view(r) == instance_trait_impl(item@, t),
{
    let body = match item.head.kind {
        crate::item::ItemKind::Struct(_, _) => {
            let mut marks: Vec<bool> = Vec::new();
            let mut i: usize = 0;
            while i < item.fields.len()
                invariant
                    i <= item.fields@.len(),
                    marks@.len() == i,
                    forall|k: int| 0 <= k < i ==> #[trigger] marks@[k] == instance_marks(item@)[k],
                decreases item.fields@.len() - i,
            {
                marks.push(is_instance_segment(&item.fields[i].0.last_segment));
                i = i + 1;
            }
            assert(marks@ =~= instance_marks(item@));
            match instance_field(&marks) {
                Some(k) => {
                    proof {
                        let c = choose|c: int| only_marked_at(instance_marks(item@), c);
                        lemma_only_marked_unique(instance_marks(item@), c, k as int);
                    }
                    struct_body_text(t, item.fields[k].0.member.as_str())
                },
                None => return Err(DeriveError::InstanceFieldCount),
            }
        },
        crate::item::ItemKind::Enum(_) => {
            let arms = enum_arms_text(item, method_name_str(t));
            let mut b = String::from_str("match self {\n");
            b.append(arms.as_str());
            b.append("}");
            b
        },
        crate::item::ItemKind::Union => return Err(DeriveError::Union),
    };
    let mut s = impl_header_text(item, trait_path_str(t));
    s.append(" {\n    ");
    s.append(method_sig_str(t));
    s.append(" {\n        ");
    s.append(body.as_str());
    s.append("\n    }\n}\n");
    Ok(s)
}

/// What a derive writes for the text of an item, given what it writes for
/// the item.
pub open spec fn for_item_text(
    text: Seq<char>,
    f: spec_fn(ItemV) -> Result<Seq<char>, DeriveError>,
) -> Result<Seq<char>, DeriveError> {
    match parsed_item(text) {
        None => Err(DeriveError::NotAnItem),
        Some(v) => f(v),
    }
}

/// The impl of one of the traits of the Java object for the item whose
/// tokens `input` holds.
pub fn instance_derive_text(input: &str, t: InstanceTrait) -> (r: Result<String, DeriveError>)
    ensures
        result_view(r) == for_item_text(input@, |v: ItemV| instance_trait_impl(v, t)),
{
    match read_item(input) {
        None => Err(DeriveError::NotAnItem),
        Some(item) => instance_trait_impl_text(&item, t),
    }
}

/// `GetInstanceDerive`: `GetInstanceTrait` for the item whose tokens
/// `input` holds.
pub fn get_instance_derive_text(input: &str) -> (r: Result<String, DeriveError>)
    ensures
        result_view(r) == for_item_text(input@, |v: ItemV| instance_trait_impl(v, InstanceTrait::GetInstance)),
{
    instance_derive_text(input, InstanceTrait::GetInstance)
}

/// `AsInstanceDerive`: `AsInstanceTrait` for the item whose tokens `input`
/// holds.
pub fn as_instance_derive_text(input: &str) -> (r: Result<String, DeriveError>)
    ensures
        result_view(r) == for_item_text(input@, |v: ItemV| instance_trait_impl(v, InstanceTrait::AsInstance)),
{
    instance_derive_text(input, InstanceTrait::AsInstance)
}

/// `ToArgDerive`: `ToArgTrait` for the item whose tokens `input` holds.
pub fn to_arg_derive_text(input: &str) -> (r: Result<String, DeriveError>)
    ensures
        result_view(r) == for_item_text(input@, |v: ItemV| instance_trait_impl(v, InstanceTrait::ToArg)),
{
    instance_derive_text(input, InstanceTrait::ToArg)
}

/// `IntoArgDerive`: `IntoArgTrait` for the item whose tokens `input` holds.
pub fn into_arg_derive_text(input: &str) -> (r: Result<String, DeriveError>)
    ensures
        result_view(r) == for_item_text(input@, |v: ItemV| instance_trait_impl(v, InstanceTrait::IntoArg)),
{
    instance_derive_text(input, InstanceTrait::IntoArg)
}

/// The four derives of the traits of the Java object accept the same
/// items: an enum, or a struct with exactly one field of type `Instance`.
/// Any other item is refused by all four with the same error.
pub proof fn lemma_instance_derives_agree(item: ItemV, t1: InstanceTrait, t2: InstanceTrait)
    ensures
        instance_trait_impl(item, t1) is Ok <==> (item.head.kind is Enum || (item.head.kind is Struct
            && exists|i: int| only_marked_at(instance_marks(item), i))),
        match (instance_trait_impl(item, t1), instance_trait_impl(item, t2)) {
            (Ok(_), Ok(_)) => true,
            (Err(a), Err(b)) => a == b,
            _ => false,
        },
{
}

/// For a struct, each of the four derives reaches the Java object through
/// the same field: the one field of type `Instance`.
pub proof fn lemma_instance_derives_use_the_instance_field(item: ItemV, t: InstanceTrait, i: int)
    requires
        item.head.kind is Struct,
        only_marked_at(instance_marks(item), i),
    ensures
        instance_body(item, t) == Ok::<Seq<char>, DeriveError>(struct_body(t, item.fields[i].0.member)),
{
    let c = choose|c: int| only_marked_at(instance_marks(item), c);
    lemma_only_marked_unique(instance_marks(item), c, i);
}

/// How the four bodies for a struct reach the Java object in field `m`:
/// `AsInstanceTrait` borrows it; `GetInstanceTrait` clones what
/// `AsInstanceTrait` borrows; `ToArgTrait`, a `&self` method like those two,
/// makes a call argument of that clone; only `IntoArgTrait`, which takes
/// `self`, moves the field into the argument.
pub proof fn lemma_struct_bodies_borrow_clone_or_move(m: Seq<char>)
    ensures
        struct_body(InstanceTrait::AsInstance, m) == "&self."@ + m,
        struct_body(InstanceTrait::GetInstance, m) == "j4rs::Jvm::attach_thread()?.clone_instance("@
            + struct_body(InstanceTrait::AsInstance, m) + ")"@,
        struct_body(InstanceTrait::ToArg, m) == "j4rs::InvocationArg::try_from("@ + struct_body(
            InstanceTrait::GetInstance,
            m,
        ) + ")"@,
        struct_body(InstanceTrait::IntoArg, m) == "Ok(j4rs::InvocationArg::try_from(self."@ + m + ")?)"@,
        method_sig(InstanceTrait::IntoArg) == "fn into_arg(self) -> Result<j4rs::InvocationArg, j4rs::errors::J4RsError>"@,
{
    reveal_strlit("j4rs::Jvm::attach_thread()?.clone_instance(&self.");
    reveal_strlit("j4rs::Jvm::attach_thread()?.clone_instance(");
    reveal_strlit("&self.");
    reveal_strlit("j4rs::InvocationArg::try_from(j4rs::Jvm::attach_thread()?.clone_instance(&self.");
    reveal_strlit("j4rs::InvocationArg::try_from(");
    reveal_strlit("))");
    reveal_strlit(")");
    assert("j4rs::Jvm::attach_thread()?.clone_instance(&self."@ =~= "j4rs::Jvm::attach_thread()?.clone_instance("@
        + "&self."@);
    assert("j4rs::InvocationArg::try_from(j4rs::Jvm::attach_thread()?.clone_instance(&self."@
        =~= "j4rs::InvocationArg::try_from("@ + "j4rs::Jvm::attach_thread()?.clone_instance(&self."@);
    assert("))"@ =~= ")"@ + ")"@);
    assert(struct_body(InstanceTrait::GetInstance, m) =~= "j4rs::Jvm::attach_thread()?.clone_instance("@
        + struct_body(InstanceTrait::AsInstance, m) + ")"@);
    assert(struct_body(InstanceTrait::ToArg, m) =~= "j4rs::InvocationArg::try_from("@ + struct_body(
        InstanceTrait::GetInstance,
        m,
    ) + ")"@);
}


/// The generics of the impl and of the type list the lifetimes first, then
/// the other parameters, each group in the order of the item: the impl
/// declares each with its bounds (a const parameter with its type), the
/// type names each.
pub proof fn lemma_lifetimes_first(ps: Seq<ParamV>, decl: bool)
    ensures
        lifetime_texts(ps, decl) == ps.filter(|p: ParamV| p.kind == GenericKind::Lifetime).map_values(
            |p: ParamV| param_text(p, decl),
        ),
        other_texts(ps, decl) == ps.filter(|p: ParamV| p.kind != GenericKind::Lifetime).map_values(
            |p: ParamV| param_text(p, decl),
        ),
        impl_generics(ps) == angled(lifetime_texts(ps, true) + other_texts(ps, true)),
        forall|p: ParamV| #[trigger] param_text(p, false) == p.name,
        forall|p: ParamV| p.kind == GenericKind::Const ==> #[trigger] param_text(p, true) == "const "@ + p.name
            + " : "@ + p.ty,
        forall|p: ParamV|
            p.kind != GenericKind::Const && p.bounds.len() > 0 ==> #[trigger] param_text(p, true) == p.name + " : "@
                + p.bounds,
    decreases ps.len(),
{
    reveal(Seq::filter);
    if ps.len() > 0 {
        lemma_lifetimes_first(ps.drop_last(), decl);
        let l = |p: ParamV| p.kind == GenericKind::Lifetime;
        let o = |p: ParamV| p.kind != GenericKind::Lifetime;
        let f = |p: ParamV| param_text(p, decl);
        let fl = ps.drop_last().filter(l);
        let fo = ps.drop_last().filter(o);
        assert(ps.filter(l) == if l(ps.last()) { fl.push(ps.last()) } else { fl });
        assert(ps.filter(o) == if o(ps.last()) { fo.push(ps.last()) } else { fo });
        assert(fl.push(ps.last()).map_values(f) =~= fl.map_values(f).push(f(ps.last())));
        assert(fo.push(ps.last()).map_values(f) =~= fo.map_values(f).push(f(ps.last())));
    }
}

/// A struct is accepted by the four derives exactly when exactly one of its
/// fields has a type whose path ends in `Instance`.
pub proof fn lemma_struct_needs_one_instance_field(item: ItemV, t: InstanceTrait)
    requires
        item.head.kind is Struct,
    ensures
        instance_trait_impl(item, t) is Ok <==> exists|i: int|
            0 <= i < item.fields.len() && (#[trigger] item.fields[i]).0.last_segment == Some("Instance"@)
                && forall|j: int|
                0 <= j < item.fields.len() && j != i ==> (#[trigger] item.fields[j]).0.last_segment != Some(
                    "Instance"@,
                ),
{
    let marks = instance_marks(item);
    if instance_trait_impl(item, t) is Ok {
        let i = choose|i: int| only_marked_at(marks, i);
        assert(marks[i] == (item.fields[i].0.last_segment == Some("Instance"@)));
        assert forall|j: int|
            0 <= j < item.fields.len() && j != i implies (#[trigger] item.fields[j]).0.last_segment != Some(
                "Instance"@,
            ) by {
            assert(marks[j] == (item.fields[j].0.last_segment == Some("Instance"@)));
        }
        assert(0 <= i < item.fields.len() && item.fields[i].0.last_segment == Some("Instance"@));
    }
    if exists|i: int|
        0 <= i < item.fields.len() && (#[trigger] item.fields[i]).0.last_segment == Some("Instance"@) && forall|j: int|
            0 <= j < item.fields.len() && j != i ==> (#[trigger] item.fields[j]).0.last_segment != Some("Instance"@) {
        let i = choose|i: int|
            0 <= i < item.fields.len() && (#[trigger] item.fields[i]).0.last_segment == Some("Instance"@) && forall|j: int|
                0 <= j < item.fields.len() && j != i ==> (#[trigger] item.fields[j]).0.last_segment != Some(
                    "Instance"@,
                );
        assert forall|j: int| 0 <= j < marks.len() && j != i implies !marks[j] by {
            assert(item.fields[j] == item.fields[j]);
        }
        assert(only_marked_at(marks, i));
    }
}


/// For an enum, every variant gets one arm, in the order of the variants:
/// the arm matches that variant and calls the method on the value it holds.
pub proof fn lemma_enum_arms_one_per_variant(item: ItemV, method: Seq<char>)
    ensures
        enum_arms(item, method) == concat(
            Seq::new(
                item.variants.len(),
                |k: int| item.head.name + "::"@ + item.variants[k].0.ident + "(a) => a."@ + method + "(),\n"@,
            ),
        ),
{
    assert(item.variants.map_values(
        |v: (crate::item::VariantV, Seq<AttrV>)| item.head.name + "::"@ + v.0.ident + "(a) => a."@ + method + "(),\n"@,
    ) =~= Seq::new(
        item.variants.len(),
        |k: int| item.head.name + "::"@ + item.variants[k].0.ident + "(a) => a."@ + method + "(),\n"@,
    ));
}

} // verus!
