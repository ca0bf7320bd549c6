//! The text of `TryFromInstanceTrait` for a struct or an enum: a struct is
//! filled field by field, the Java object going to its first field of type
//! `Instance`; an enum tests the Java object against the class of each
//! variant's value in turn.
use vstd::prelude::*;
use vstd::string::{StrSliceExecFns, StringExecFns};
use crate::derive_plan::{
    enum_plan_outcome, field_init, plan_enum, plan_struct_fields, DefaultAttr, EnumPlanError,
    FieldInfo, FieldInit, VariantInfo, VariantShape,
};
use crate::derive_text::{
    concat, concat_strings, impl_header, impl_header_text, join_strings, result_view, string_views,
    DeriveError,
};
use crate::item::{parsed_item, AttrParts, AttrV, FieldV, FieldsForm, ItemKind, ItemShape, ItemV, VariantV};
use crate::text::{chars_of, join, str_eq, trim_range, trim_white};

verus! {

// ---------------------------------------------------------------------------
// The attributes `#[default(..)]` and `#[fall]`.
// ---------------------------------------------------------------------------

/// The index of the first attribute with this path.
pub open spec fn first_with_path(attrs: Seq<AttrV>, path: Seq<char>) -> Option<int>
    decreases attrs.len(),
{
    if attrs.len() == 0 {
        None
    } else {
        match first_with_path(attrs.drop_last(), path) {
            Some(i) => Some(i),
            None => if attrs.last().path == path {
                Some(attrs.len() - 1)
            } else {
                None
            },
        }
    }
}

/// The index of the first `c` in `s`.
pub open spec fn first_index_of(s: Seq<char>, c: char) -> Option<int>
    decreases s.len(),
{
    if s.len() == 0 {
        None
    } else {
        match first_index_of(s.drop_last(), c) {
            Some(i) => Some(i),
            None => if s.last() == c {
                Some(s.len() - 1)
            } else {
                None
            },
        }
    }
}

/// What the tokens inside `#[default(..)]` say: `value = V` gives the value
/// `V`, `fn_name = F` the function `F`.
pub open spec fn default_args(args: Seq<char>) -> Result<(DefaultAttr, Seq<char>), DeriveError> {
    match first_index_of(args, '=') {
        None => Err(DeriveError::MalformedDefault),
        Some(i) => {
            let key = trim_white(args.take(i));
            let given = trim_white(args.skip(i + 1));
            if key == "value"@ {
                Ok((DefaultAttr::Value, given))
            } else if key == "fn_name"@ {
                Ok((DefaultAttr::Function, given))
            } else {
                Err(DeriveError::MalformedDefault)
            }
        },
    }
}

/// What the first `#[default(..)]` among a field's attributes says; without
/// one, nothing is given.
pub open spec fn default_of(attrs: Seq<AttrV>) -> Result<(DefaultAttr, Seq<char>), DeriveError> {
    match first_with_path(attrs, "default"@) {
        None => Ok((DefaultAttr::Absent, Seq::empty())),
        Some(i) => default_args(attrs[i].args),
    }
}

/// What `first_with_path` finds is an attribute with the path, with none
/// before it; where it finds none, no attribute has the path.
proof fn lemma_first_with_path_finds(attrs: Seq<AttrV>, path: Seq<char>)
    ensures
        match first_with_path(attrs, path) {
            Some(i) => 0 <= i < attrs.len() && attrs[i].path == path && forall|j: int|
                0 <= j < i ==> (#[trigger] attrs[j]).path != path,
            None => forall|j: int| 0 <= j < attrs.len() ==> (#[trigger] attrs[j]).path != path,
        },
    decreases attrs.len(),
{
    if attrs.len() > 0 {
        let q = attrs.drop_last();
        lemma_first_with_path_finds(q, path);
        match first_with_path(q, path) {
            Some(i) => {
                assert(q[i] == attrs[i]);
                assert forall|j: int| 0 <= j < i implies (#[trigger] attrs[j]).path != path by {
                    assert(q[j] == attrs[j]);
                }
            },
            None => {
                assert forall|j: int| 0 <= j < q.len() implies (#[trigger] attrs[j]).path != path by {
                    assert(q[j] == attrs[j]);
                }
            },
        }
    }
}

/// The first attribute with the path is found wherever it stands among the
/// others: `Some(i)` exactly when attribute `i` has the path and none
/// before it does, `None` exactly when none has it.
pub proof fn lemma_first_with_path(attrs: Seq<AttrV>, path: Seq<char>)
    ensures
        first_with_path(attrs, path) is None <==> forall|j: int| 0 <= j < attrs.len() ==> (#[trigger] attrs[j]).path != path,
        forall|i: int|
            first_with_path(attrs, path) == Some(i) <==> (0 <= i < attrs.len() && (#[trigger] attrs[i]).path == path
                && forall|j: int| 0 <= j < i ==> (#[trigger] attrs[j]).path != path),
{
    lemma_first_with_path_finds(attrs, path);
}

/// What `first_index_of` finds is a `c`, with none before it; where it
/// finds none, there is no `c`.
proof fn lemma_first_index_finds(s: Seq<char>, c: char)
    ensures
        match first_index_of(s, c) {
            Some(i) => 0 <= i < s.len() && s[i] == c && forall|j: int| 0 <= j < i ==> s[j] != c,
            None => forall|j: int| 0 <= j < s.len() ==> s[j] != c,
        },
    decreases s.len(),
{
    if s.len() > 0 {
        let q = s.drop_last();
        lemma_first_index_finds(q, c);
        assert forall|j: int| 0 <= j < q.len() implies q[j] == s[j] by {}
    }
}

/// The first `c` is found wherever it stands: `Some(i)` exactly when
/// `s[i]` is `c` and no character before it is.
pub proof fn lemma_first_index_of(s: Seq<char>, c: char)
    ensures
        first_index_of(s, c) is None <==> forall|j: int| 0 <= j < s.len() ==> s[j] != c,
        forall|i: int|
            first_index_of(s, c) == Some(i) <==> (0 <= i < s.len() && s[i] == c && forall|j: int|
                0 <= j < i ==> s[j] != c),
{
    lemma_first_index_finds(s, c);
}

/// A `#[default(..)]` is read at its first `=`: what stands before it,
/// trimmed, must be `value` or `fn_name`, and what stands after it,
/// trimmed, is the value or the function; without `=` it is refused.
pub proof fn lemma_default_args(args: Seq<char>)
    ensures
        (forall|j: int| 0 <= j < args.len() ==> args[j] != '=') ==> default_args(args) == Err::<
            (DefaultAttr, Seq<char>),
            DeriveError,
        >(DeriveError::MalformedDefault),
        forall|i: int|
            0 <= i < args.len() && args[i] == '=' && (forall|j: int| 0 <= j < i ==> args[j] != '=') ==> {
                &&& (trim_white(#[trigger] args.take(i)) == "value"@ ==> default_args(args) == Ok::<
                    (DefaultAttr, Seq<char>),
                    DeriveError,
                >((DefaultAttr::Value, trim_white(args.skip(i + 1)))))
                &&& (trim_white(args.take(i)) == "fn_name"@ ==> default_args(args) == Ok::<
                    (DefaultAttr, Seq<char>),
                    DeriveError,
                >((DefaultAttr::Function, trim_white(args.skip(i + 1)))))
                &&& (trim_white(args.take(i)) != "value"@ && trim_white(args.take(i)) != "fn_name"@
                    ==> default_args(args) == Err::<(DefaultAttr, Seq<char>), DeriveError>(
                    DeriveError::MalformedDefault,
                ))
            },
{
    lemma_first_index_finds(args, '=');
    reveal_strlit("value");
    reveal_strlit("fn_name");
    assert("value"@.len() != "fn_name"@.len());
    assert forall|i: int|
        0 <= i < args.len() && args[i] == '=' && (forall|j: int| 0 <= j < i ==> args[j] != '=') implies {
            &&& (trim_white(#[trigger] args.take(i)) == "value"@ ==> default_args(args) == Ok::<
                (DefaultAttr, Seq<char>),
                DeriveError,
            >((DefaultAttr::Value, trim_white(args.skip(i + 1)))))
            &&& (trim_white(args.take(i)) == "fn_name"@ ==> default_args(args) == Ok::<
                (DefaultAttr, Seq<char>),
                DeriveError,
            >((DefaultAttr::Function, trim_white(args.skip(i + 1)))))
            &&& (trim_white(args.take(i)) != "value"@ && trim_white(args.take(i)) != "fn_name"@
                ==> default_args(args) == Err::<(DefaultAttr, Seq<char>), DeriveError>(
                DeriveError::MalformedDefault,
            ))
        } by {
        match first_index_of(args, '=') {
            Some(f) => {
                if f < i {
                    assert(args[f] == '=');
                } else if f > i {
                    assert(args[i] != '=');
                }
            },
            None => {
                assert(args[i] != '=');
            },
        }
    }
}

fn first_with_path_exec(attrs: &Vec<AttrParts>, path: &str) -> (r: Option<usize>)
    ensures
        r is None <==> first_with_path(crate::item::attrs_view(attrs@), path@) is None,
        r matches Some(i) ==> i < attrs@.len() && first_with_path(crate::item::attrs_view(attrs@), path@)
            == Some(i as int),
{
    let ghost v = crate::item::attrs_view(attrs@);
    let mut i: usize = 0;
    while i < attrs.len()
        invariant
            i <= attrs@.len(),
            v == crate::item::attrs_view(attrs@),
            first_with_path(v.take(i as int), path@) is None,
        decreases attrs@.len() - i,
    {
        assert(v.take(i + 1).drop_last() =~= v.take(i as int));
        if str_eq(attrs[i].path.as_str(), path) {
            proof {
                lemma_first_with_path_prefix(v, i + 1, i as int, path@);
            }
            return Some(i);
        }
        i = i + 1;
    }
    assert(v.take(attrs@.len() as int) =~= v);
    None
}

/// Once a prefix has its first attribute with the path, the whole list has
/// the same one.
proof fn lemma_first_with_path_prefix(v: Seq<AttrV>, k: int, i: int, path: Seq<char>)
    requires
        0 <= k <= v.len(),
        first_with_path(v.take(k), path) == Some(i),
    ensures
        first_with_path(v, path) == Some(i),
    decreases v.len() - k,
{
    if k < v.len() {
        assert(v.take(k + 1).drop_last() =~= v.take(k));
        lemma_first_with_path_prefix(v, k + 1, i, path);
    } else {
        assert(v.take(k) =~= v);
    }
}

proof fn lemma_first_index_prefix(s: Seq<char>, k: int, i: int, c: char)
    requires
        0 <= k <= s.len(),
        first_index_of(s.take(k), c) == Some(i),
    ensures
        first_index_of(s, c) == Some(i),
    decreases s.len() - k,
{
    if k < s.len() {
        assert(s.take(k + 1).drop_last() =~= s.take(k));
        lemma_first_index_prefix(s, k + 1, i, c);
    } else {
        assert(s.take(k) =~= s);
    }
}

fn default_args_exec(args: &str) -> (r: Result<(DefaultAttr, String), DeriveError>)
    ensures
        match (r, default_args(args@)) {
            (Ok((k, t)), Ok((k2, t2))) => k == k2 && t@ == t2,
            (Err(e), Err(e2)) => e == e2,
            _ => false,
        },
{
    let chars = chars_of(args);
    let n = chars.len();
    let mut i: usize = 0;
    while i < n
        invariant
            i <= n,
            n == chars@.len(),
            chars@ == args@,
            first_index_of(args@.take(i as int), '=') is None,
        decreases n - i,
    {
        assert(args@.take(i + 1).drop_last() =~= args@.take(i as int));
        if chars[i] == '=' {
            proof {
                lemma_first_index_prefix(args@, i + 1, i as int, '=');
            }
            let (ka, kb) = trim_range(&chars, 0, i);
            let (va, vb) = trim_range(&chars, i + 1, n);
            assert(chars@.subrange(0, i as int) =~= args@.take(i as int));
            assert(chars@.subrange(i + 1, n as int) =~= args@.skip(i + 1));
            let key = args.substring_char(ka, kb);
            let given = String::from_str(args.substring_char(va, vb));
            if str_eq(key, "value") {
                return Ok((DefaultAttr::Value, given));
            } else if str_eq(key, "fn_name") {
                return Ok((DefaultAttr::Function, given));
            } else {
                return Err(DeriveError::MalformedDefault);
            }
        }
        i = i + 1;
    }
    assert(args@.take(n as int) =~= args@);
    Err(DeriveError::MalformedDefault)
}

/// What the first `#[default(..)]` among the attributes says.
pub fn default_of_exec(attrs: &Vec<AttrParts>) -> (r: Result<(DefaultAttr, String), DeriveError>)
    ensures
        match (r, default_of(crate::item::attrs_view(attrs@))) {
            (Ok((k, t)), Ok((k2, t2))) => k == k2 && t@ == t2,
            (Err(e), Err(e2)) => e == e2,
            _ => false,
        },
{
    let ghost v = crate::item::attrs_view(attrs@);
    match first_with_path_exec(attrs, "default") {
        None => Ok((DefaultAttr::Absent, String::new())),
        Some(i) => {
            assert(v[i as int] == attrs@[i as int]@);
            default_args_exec(attrs[i].args.as_str())
        },
    }
}

// ---------------------------------------------------------------------------
// A struct: each field filled in turn.
// ---------------------------------------------------------------------------

/// What the derive knows of field `i` of the struct: whether its type is
/// `Instance`, and what kind of `#[default(..)]` it has.
pub open spec fn field_info(f: (FieldV, Seq<AttrV>)) -> FieldInfo {
    FieldInfo {
        is_instance: f.0.last_segment == Some("Instance"@),
        default_attr: match default_of(f.1) {
            Ok((k, _)) => k,
            Err(_) => DefaultAttr::Absent,
        },
    }
}

/// What the derive knows of the fields of the struct.
pub open spec fn field_infos(item: ItemV) -> Seq<FieldInfo> {
    item.fields.map_values(|f: (FieldV, Seq<AttrV>)| field_info(f))
}

/// The local variable that holds a field's value before the struct is made.
pub open spec fn local_name(member: Seq<char>) -> Seq<char> {
    "field_"@ + member
}

/// The value or function that field `i`'s `#[default(..)]` gives.
pub open spec fn given_text(item: ItemV, i: int) -> Seq<char> {
    match default_of(item.fields[i].1) {
        Ok((_, t)) => t,
        Err(_) => Seq::empty(),
    }
}

/// The statement that computes field `i` before the struct is made, where
/// one is needed.
pub open spec fn init_line(item: ItemV, i: int) -> Seq<char> {
    let m = item.fields[i].0.member;
    match field_init(field_infos(item), i) {
        FieldInit::Value => "let "@ + local_name(m) + " = "@ + given_text(item, i) + ";\n"@,
        FieldInit::Function => "let "@ + local_name(m) + " = "@ + given_text(item, i) + "(&instance);\n"@,
        _ => Seq::empty(),
    }
}

/// The value that field `i` is made with.
pub open spec fn field_value(item: ItemV, i: int) -> Seq<char> {
    match field_init(field_infos(item), i) {
        FieldInit::Instance => "instance"@,
        FieldInit::TypeDefault => "Default::default()"@,
        _ => local_name(item.fields[i].0.member),
    }
}

/// Field `i` as it stands in the struct expression.
pub open spec fn field_entry(item: ItemV, i: int) -> Seq<char> {
    match item.head.kind {
        ItemKind::Struct(FieldsForm::Named, _) => item.fields[i].0.member + ": "@ + field_value(item, i),
        _ => field_value(item, i),
    }
}

/// The struct expression, with all its fields.
pub open spec fn struct_expr(item: ItemV) -> Seq<char> {
    let entries = join(Seq::new(item.fields.len(), |i: int| field_entry(item, i)), ", "@);
    match item.head.kind {
        ItemKind::Struct(FieldsForm::Named, _) => "Self { "@ + entries + " }"@,
        ItemKind::Struct(FieldsForm::Unnamed, _) => "Self("@ + entries + ")"@,
        _ => "Self"@,
    }
}

/// Every `#[default(..)]` of the struct's fields can be read.
pub open spec fn defaults_readable(item: ItemV) -> bool {
    forall|i: int| 0 <= i < item.fields.len() ==> (#[trigger] default_of(item.fields[i].1)) is Ok
}

/// The body of `try_from_instance` for a struct: the statements that
/// compute the fields with a `#[default(..)]`, then the struct.
pub open spec fn struct_from_body(item: ItemV) -> Result<Seq<char>, DeriveError> {
    if defaults_readable(item) {
        Ok(concat(Seq::new(item.fields.len(), |i: int| init_line(item, i))) + "Ok("@ + struct_expr(item) + ")"@)
    } else {
        Err(DeriveError::MalformedDefault)
    }
}

fn field_is_instance(f: &crate::item::FieldParts) -> (r: bool)
    ensures
        r == (f@.last_segment == Some("Instance"@)),
{
    match &f.last_segment {
        Some(s) => str_eq(s.as_str(), "Instance"),
        None => false,
    }
}

fn struct_from_body_text(item: &ItemShape) -> (r: Result<String, DeriveError>)
    requires
        item@.head.kind is Struct,
    ensures
        result_view(r) == struct_from_body(item@),
{
    let ghost v = item@;
    let n = item.fields.len();
    let mut infos: Vec<FieldInfo> = Vec::new();
    let mut given: Vec<String> = Vec::new();
    let mut i: usize = 0;
    while i < n
        invariant
            v == item@,
            n == v.fields.len(),
            i <= n,
            infos@.len() == i,
            given@.len() == i,
            forall|k: int| 0 <= k < i ==> #[trigger] infos@[k] == field_info(v.fields[k]),
            forall|k: int| 0 <= k < i ==> (#[trigger] given@[k])@ == given_text(v, k),
            forall|k: int| 0 <= k < i ==> (#[trigger] default_of(v.fields[k].1)) is Ok,
        decreases n - i,
    {
        assert(v.fields[i as int] == (item.fields@[i as int].0@, crate::item::attrs_view(item.fields@[i as int].1@)));
        let d = default_of_exec(&item.fields[i].1);
        match d {
            Err(_) => {
                assert(default_of(v.fields[i as int].1) is Err);
                assert(!defaults_readable(v));
                return Err(DeriveError::MalformedDefault);
            },
            Ok((k, t)) => {
                let is_instance = field_is_instance(&item.fields[i].0);
                infos.push(FieldInfo { is_instance, default_attr: k });
                given.push(t);
            },
        }
        i = i + 1;
    }
    assert(infos@ =~= field_infos(v));
    let plan = plan_struct_fields(&infos);
    let named = match item.head.kind {
        ItemKind::Struct(FieldsForm::Named, _) => true,
        _ => false,
    };
    let mut inits: Vec<String> = Vec::new();
    let mut entries: Vec<String> = Vec::new();
    let mut j: usize = 0;
    while j < n
        invariant
            v == item@,
            n == v.fields.len(),
            infos@ == field_infos(v),
            plan@.len() == n,
            forall|k: int| 0 <= k < n ==> #[trigger] plan@[k] == field_init(infos@, k),
            given@.len() == n,
            forall|k: int| 0 <= k < n ==> (#[trigger] given@[k])@ == given_text(v, k),
            named == (v.head.kind matches ItemKind::Struct(FieldsForm::Named, _)),
            j <= n,
            inits@.len() == j,
            entries@.len() == j,
            forall|k: int| 0 <= k < j ==> (#[trigger] inits@[k])@ == init_line(v, k),
            forall|k: int| 0 <= k < j ==> (#[trigger] entries@[k])@ == field_entry(v, k),
        decreases n - j,
    {
        assert(v.fields[j as int].0 == item.fields@[j as int].0@);
        let member = item.fields[j].0.member.as_str();
        let mut local = String::from_str("field_");
        local.append(member);
        let init = plan[j];
        let mut line = String::new();
        let value = match init {
            FieldInit::Instance => String::from_str("instance"),
            FieldInit::TypeDefault => String::from_str("Default::default()"),
            FieldInit::Value => {
                line = String::from_str("let ");
                line.append(local.as_str());
                line.append(" = ");
                line.append(given[j].as_str());
                line.append(";\n");
                local.clone()
            },
            FieldInit::Function => {
                line = String::from_str("let ");
                line.append(local.as_str());
                line.append(" = ");
                line.append(given[j].as_str());
                line.append("(&instance);\n");
                local.clone()
            },
        };
        let entry = if named {
            let mut e = String::from_str(member);
            e.append(": ");
            e.append(value.as_str());
            e
        } else {
            value
        };
        inits.push(line);
        entries.push(entry);
        j = j + 1;
    }
    assert(string_views(inits@) =~= Seq::new(n as nat, |k: int| init_line(v, k)));
    assert(string_views(entries@) =~= Seq::new(n as nat, |k: int| field_entry(v, k)));
    let mut body = concat_strings(&inits);
    let joined = join_strings(&entries, ", ");
    let ghost head = body@ + "Ok("@;
    assert(defaults_readable(v));
    body.append("Ok(");
    match item.head.kind {
        ItemKind::Struct(FieldsForm::Named, _) => {
            body.append("Self { ");
            body.append(joined.as_str());
            body.append(" }");
        },
        ItemKind::Struct(FieldsForm::Unnamed, _) => {
            body.append("Self(");
            body.append(joined.as_str());
            body.append(")");
        },
        _ => {
            body.append("Self");
        },
    }
    body.append(")");
    assert(body@ =~= head + struct_expr(v) + ")"@);
    Ok(body)
}

// ---------------------------------------------------------------------------
// An enum: each variant's class tested in turn.
// ---------------------------------------------------------------------------

/// What the derive knows of a variant: its fields, and whether it carries
/// `#[fall]`.
pub open spec fn variant_info(v: (VariantV, Seq<AttrV>)) -> VariantInfo {
    VariantInfo { shape: v.0.shape, fall: first_with_path(v.1, "fall"@) is Some }
}

/// What the derive knows of the variants of the enum.
pub open spec fn variant_infos(item: ItemV) -> Seq<VariantInfo> {
    item.variants.map_values(|v: (VariantV, Seq<AttrV>)| variant_info(v))
}

/// The test for variant `k`: if the Java object is of the class of the
/// variant's value, the variant with that value read from it.
pub open spec fn test_arm(item: ItemV, k: int) -> Seq<char> {
    let v = item.variants[k].0;
    let ty = v.first_type;
    "if <"@ + ty + " as jbuchong::GetClassTypeTrait>::is_this_type(&instance) {\n"@ + item.head.name + "::"@
        + v.ident + "(<"@ + ty + ">::try_from_instance(<"@ + ty
        + " as jbuchong::GetClassTypeTrait>::cast_to_this_type(instance))?)\n} else "@
}

/// What is made when no test succeeds: the fall-back variant, or a panic
/// where there is none.
pub open spec fn fall_text(item: ItemV, fall: Option<int>) -> Seq<char> {
    match fall {
        None => "{ panic!(\"意料之外的类型！\") }"@,
        Some(k) => {
            let v = item.variants[k].0;
            if v.shape == VariantShape::Unit {
                "{"@ + item.head.name + "::"@ + v.ident + "}"@
            } else {
                "{"@ + item.head.name + "::"@ + v.ident + "(<"@ + v.first_type
                    + " as jbuchong::TryFromInstanceTrait>::try_from_instance(instance)?)}"@
            }
        },
    }
}

/// The error of the derive for an error of the plan.
pub open spec fn plan_error(e: EnumPlanError) -> DeriveError {
    match e {
        EnumPlanError::EmptyTupleVariant(i) => DeriveError::EmptyTupleVariant(i),
        EnumPlanError::NamedVariant(i) => DeriveError::NamedVariant(i),
    }
}

/// The variants to warn about, and the body of `try_from_instance` for an
/// enum: the tests in the order of the variants, then the fall-back.
pub open spec fn enum_from_body(item: ItemV) -> (Seq<usize>, Result<Seq<char>, DeriveError>) {
    let out = enum_plan_outcome(variant_infos(item));
    (
        out.0,
        match out.1 {
            Err(e) => Err(plan_error(e)),
            Ok((tested, fall)) => Ok(
                "Ok("@ + concat(tested.map_values(|k: usize| test_arm(item, k as int))) + fall_text(item, fall)
                    + ")"@,
            ),
        },
    )
}

fn test_arm_text(item: &ItemShape, k: usize) -> (r: String)
    requires
        k < item@.variants.len(),
    ensures
        r@ == test_arm(item@, k as int),
{
    assert(item@.variants[k as int].0 == item.variants@[k as int].0@);
    let v = &item.variants[k].0;
    let ty = v.first_type.as_str();
    let mut s = String::from_str("if <");
    s.append(ty);
    s.append(" as jbuchong::GetClassTypeTrait>::is_this_type(&instance) {\n");
    s.append(item.head.name.as_str());
    s.append("::");
    s.append(v.ident.as_str());
    s.append("(<");
    s.append(ty);
    s.append(">::try_from_instance(<");
    s.append(ty);
    s.append(" as jbuchong::GetClassTypeTrait>::cast_to_this_type(instance))?)\n} else ");
    s
}

fn fall_text_exec(item: &ItemShape, fall: Option<usize>) -> (r: String)
    requires
        fall matches Some(k) ==> k < item@.variants.len(),
    ensures
        r@ == fall_text(
            item@,
            match fall {
                Some(k) => Some(k as int),
                None => None,
            },
        ),
{
    match fall {
        None => String::from_str("{ panic!(\"意料之外的类型！\") }"),
        Some(k) => {
            assert(item@.variants[k as int].0 == item.variants@[k as int].0@);
            let v = &item.variants[k].0;
            let mut s = String::from_str("{");
            s.append(item.head.name.as_str());
            s.append("::");
            s.append(v.ident.as_str());
            if v.shape == VariantShape::Unit {
                s.append("}");
            } else {
                s.append("(<");
                s.append(v.first_type.as_str());
                s.append(" as jbuchong::TryFromInstanceTrait>::try_from_instance(instance)?)}");
            }
            s
        },
    }
}

fn enum_from_body_text(item: &ItemShape) -> (r: (Vec<usize>, Result<String, DeriveError>))
    ensures
        r.0@ == enum_from_body(item@).0,
        result_view(r.1) == enum_from_body(item@).1,
{
    let ghost v = item@;
    let n = item.variants.len();
    let mut infos: Vec<VariantInfo> = Vec::new();
    let mut i: usize = 0;
    while i < n
        invariant
            v == item@,
            n == v.variants.len(),
            i <= n,
            infos@.len() == i,
            forall|k: int| 0 <= k < i ==> #[trigger] infos@[k] == variant_info(v.variants[k]),
        decreases n - i,
    {
        assert(v.variants[i as int] == (
            item.variants@[i as int].0@,
            crate::item::attrs_view(item.variants@[i as int].1@),
        ));
        let fall = first_with_path_exec(&item.variants[i].1, "fall").is_some();
        infos.push(VariantInfo { shape: item.variants[i].0.shape, fall });
        i = i + 1;
    }
    assert(infos@ =~= variant_infos(v));
    let (warned, planned) = plan_enum(&infos);
    proof {
        crate::derive_plan::lemma_tested_variants(infos@);
        crate::derive_plan::lemma_fall_is_last_marked(infos@);
    }
    match planned {
        Err(e) => {
            let d = match e {
                EnumPlanError::EmptyTupleVariant(k) => DeriveError::EmptyTupleVariant(k),
                EnumPlanError::NamedVariant(k) => DeriveError::NamedVariant(k),
            };
            (warned, Err(d))
        },
        Ok(plan) => {
            let ghost tested = plan.tested@;
            let mut arms: Vec<String> = Vec::new();
            let mut j: usize = 0;
            while j < plan.tested.len()
                invariant
                    v == item@,
                    n == v.variants.len(),
                    tested == plan.tested@,
                    forall|k: int| 0 <= k < tested.len() ==> #[trigger] tested[k] < n,
                    j <= tested.len(),
                    arms@.len() == j,
                    forall|k: int| 0 <= k < j ==> (#[trigger] arms@[k])@ == test_arm(v, tested[k] as int),
                decreases tested.len() - j,
            {
                let a = test_arm_text(item, plan.tested[j]);
                arms.push(a);
                j = j + 1;
            }
            assert(string_views(arms@) =~= tested.map_values(|k: usize| test_arm(v, k as int)));
            let mut body = String::from_str("Ok(");
            let tests = concat_strings(&arms);
            body.append(tests.as_str());
            let f = fall_text_exec(item, plan.fall);
            body.append(f.as_str());
            body.append(")");
            (warned, Ok(body))
        },
    }
}

// ---------------------------------------------------------------------------
// The impl.
// ---------------------------------------------------------------------------

/// What `TryFromInstanceDerive` writes for an item: the variants to warn
/// about (for an enum), and the impl of `TryFromInstanceTrait` or why there
/// is none.
pub open spec fn try_from_instance_impl(item: ItemV) -> (Seq<usize>, Result<Seq<char>, DeriveError>) {
    let body = match item.head.kind {
        ItemKind::Struct(_, _) => (Seq::<usize>::empty(), struct_from_body(item)),
        ItemKind::Enum(_) => enum_from_body(item),
        ItemKind::Union => (Seq::<usize>::empty(), Err(DeriveError::Union)),
    };
    (
        body.0,
        match body.1 {
            Ok(b) => Ok(
                impl_header(item, "jbuchong::TryFromInstanceTrait"@)
                    + " {\n    fn try_from_instance(instance: j4rs::Instance) -> Result<Self, j4rs::errors::J4RsError> {\n        "@
                    + b + "\n    }\n}\n"@,
            ),
            Err(e) => Err(e),
        },
    )
}

/// `TryFromInstanceTrait` for an item.
pub fn try_from_instance_impl_text(item: &ItemShape) -> (r: (Vec<usize>, Result<String, DeriveError>))
    ensures
        r.0@ == try_from_instance_impl(item@).0,
        result_view(r.1) == try_from_instance_impl(item@).1,
{
    let (warned, body) = match item.head.kind {
        ItemKind::Struct(_, _) => (Vec::new(), struct_from_body_text(item)),
        ItemKind::Enum(_) => enum_from_body_text(item),
        ItemKind::Union => (Vec::new(), Err(DeriveError::Union)),
    };
    match body {
        Err(e) => (warned, Err(e)),
        Ok(b) => {
            let mut s = impl_header_text(item, "jbuchong::TryFromInstanceTrait");
            s.append(" {\n    fn try_from_instance(instance: j4rs::Instance) -> Result<Self, j4rs::errors::J4RsError> {\n        ");
            s.append(b.as_str());
            s.append("\n    }\n}\n");
            (warned, Ok(s))
        },
    }
}

/// `TryFromInstanceDerive`: the variants to warn about and
/// `TryFromInstanceTrait` for the item whose tokens `input` holds.
pub fn try_from_instance_derive_text(input: &str) -> (r: (Vec<usize>, Result<String, DeriveError>))
    ensures
        match parsed_item(input@) {
            None => r.0@.len() == 0 && r.1 == Err::<String, DeriveError>(DeriveError::NotAnItem),
            Some(v) => r.0@ == try_from_instance_impl(v).0 && result_view(r.1) == try_from_instance_impl(v).1,
        },
{
    match crate::item::read_item(input) {
        None => (Vec::new(), Err(DeriveError::NotAnItem)),
        Some(item) => try_from_instance_impl_text(&item),
    }
}

// ---------------------------------------------------------------------------
// What the derive promises.
// ---------------------------------------------------------------------------

/// A struct whose `#[default(..)]` attributes can all be read is accepted.
/// Its first field of type `Instance` is made from the Java object; every
/// other field from its `#[default(..)]`, or from its type's `Default`
/// where it has none.
pub proof fn lemma_struct_fields_are_filled(item: ItemV, i: int)
    requires
        item.head.kind is Struct,
        defaults_readable(item),
        0 <= i < item.fields.len(),
    ensures
        try_from_instance_impl(item).1 is Ok,
        crate::derive_plan::first_instance(field_infos(item)) == Some(i) ==> field_value(item, i) == "instance"@,
        crate::derive_plan::first_instance(field_infos(item)) != Some(i) ==> match default_of(item.fields[i].1) {
            Ok((DefaultAttr::Absent, _)) => field_value(item, i) == "Default::default()"@,
            Ok((DefaultAttr::Value, v)) => field_value(item, i) == local_name(item.fields[i].0.member)
                && init_line(item, i) == "let "@ + local_name(item.fields[i].0.member) + " = "@ + v + ";\n"@,
            Ok((DefaultAttr::Function, f)) => field_value(item, i) == local_name(item.fields[i].0.member)
                && init_line(item, i) == "let "@ + local_name(item.fields[i].0.member) + " = "@ + f
                + "(&instance);\n"@,
            Err(_) => false,
        },
{
    assert(field_infos(item)[i] == field_info(item.fields[i]));
    assert(default_of(item.fields[i].1) is Ok);
}

/// For an enum that is accepted, a Java object that no test takes goes to
/// the last variant that carries `#[fall]`; where no variant carries it,
/// reading such an object panics.
pub proof fn lemma_enum_falls_to_last_marked(item: ItemV)
    requires
        enum_from_body(item).1 is Ok,
    ensures
        match enum_plan_outcome(variant_infos(item)).1 {
            Ok((_, Some(k))) => {
                &&& 0 <= k < item.variants.len()
                &&& first_with_path(item.variants[k].1, "fall"@) is Some
                &&& forall|j: int| k < j < item.variants.len() ==> first_with_path(
                    #[trigger] item.variants[j].1,
                    "fall"@,
                ) is None
            },
            Ok((_, None)) => {
                &&& forall|j: int| 0 <= j < item.variants.len() ==> first_with_path(
                    #[trigger] item.variants[j].1,
                    "fall"@,
                ) is None
                &&& fall_text(item, None) == "{ panic!(\"意料之外的类型！\") }"@
            },
            Err(_) => false,
        },
{
    let vs = variant_infos(item);
    crate::derive_plan::lemma_fall_is_last_marked(vs);
    assert forall|j: int| 0 <= j < item.variants.len() implies vs[j].fall == (first_with_path(
        #[trigger] item.variants[j].1,
        "fall"@,
    ) is Some) by {}
}

/// For an enum that is accepted, the tests come one per variant that has
/// unnamed fields and no `#[fall]`, in the order of the variants, each
/// testing the class of that variant's own first field and making that
/// variant; no variant marked `#[fall]` and no variant without fields is
/// tested, and the fall-back comes after all tests.
pub proof fn lemma_enum_tests_each_unmarked_tuple_variant(item: ItemV)
    requires
        enum_from_body(item).1 is Ok,
        item.variants.len() <= usize::MAX,
    ensures
        ({
            let tv = crate::derive_plan::tested_variants(variant_infos(item));
            &&& enum_from_body(item).1 == Ok::<Seq<char>, DeriveError>(
                "Ok("@ + concat(Seq::new(tv.len(), |k: int| test_arm(item, tv[k] as int))) + fall_text(
                    item,
                    crate::derive_plan::fall_arm(variant_infos(item)),
                ) + ")"@,
            )
            &&& forall|j: int|
                0 <= j < item.variants.len() ==> (tv.contains(j as usize) <==> (first_with_path(
                    #[trigger] item.variants[j].1,
                    "fall"@,
                ) is None && item.variants[j].0.shape != VariantShape::Unit && item.variants[j].0.shape
                    != VariantShape::Named && item.variants[j].0.shape != VariantShape::Tuple(0)))
            &&& forall|k: int| 0 <= k < tv.len() ==> #[trigger] tv[k] < item.variants.len()
            &&& forall|a: int, b: int| 0 <= a < b < tv.len() ==> tv[a] < tv[b]
        }),
{
    let vs = variant_infos(item);
    let tv = crate::derive_plan::tested_variants(vs);
    crate::derive_plan::lemma_tested_variants(vs);
    assert(tv.map_values(|k: usize| test_arm(item, k as int)) =~= Seq::new(
        tv.len(),
        |k: int| test_arm(item, tv[k] as int),
    ));
    assert forall|j: int| 0 <= j < item.variants.len() implies vs[j] == variant_info(
        #[trigger] item.variants[j],
    ) by {}
}


/// The Java object is moved into exactly one field, the first of type
/// `Instance`: no other field is made from `instance`.
pub proof fn lemma_instance_moved_once(item: ItemV, i: int)
    requires
        0 <= i < item.fields.len(),
    ensures
        field_value(item, i) == "instance"@ <==> crate::derive_plan::first_instance(field_infos(item)) == Some(i),
{
    reveal_strlit("instance");
    reveal_strlit("Default::default()");
    reveal_strlit("field_");
    if crate::derive_plan::first_instance(field_infos(item)) != Some(i) {
        let v = field_value(item, i);
        assert(v[0] != 'i');
    }
}

/// Every field made from a local variable has the line that declares that
/// variable, and only such fields have one: the line binds the field's own
/// local to the value, or to what the function makes of `&instance`.
pub proof fn lemma_locals_are_declared(item: ItemV, i: int)
    requires
        0 <= i < item.fields.len(),
    ensures
        (field_value(item, i) == local_name(item.fields[i].0.member)) <==> init_line(item, i).len() > 0,
        init_line(item, i).len() > 0 ==> init_line(item, i).take(
            ("let "@ + local_name(item.fields[i].0.member) + " = "@).len() as int,
        ) == "let "@ + local_name(item.fields[i].0.member) + " = "@,
{
    reveal_strlit("instance");
    reveal_strlit("Default::default()");
    reveal_strlit("field_");
    reveal_strlit("let ");
    let m = item.fields[i].0.member;
    let head = "let "@ + local_name(m) + " = "@;
    match crate::derive_plan::field_init(field_infos(item), i) {
        FieldInit::Value => {
            assert(init_line(item, i).take(head.len() as int) =~= head);
        },
        FieldInit::Function => {
            assert(init_line(item, i).take(head.len() as int) =~= head);
        },
        FieldInit::Instance => {
            assert(field_value(item, i)[0] != local_name(m)[0]);
        },
        FieldInit::TypeDefault => {
            assert(field_value(item, i)[0] != local_name(m)[0]);
        },
    }
}

} // verus!
