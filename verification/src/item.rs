//! The item that a derive is applied to, read from the text of its tokens
//! by `syn` and held as plain text: its name, generic parameters, where
//! clause, and its fields or variants with their attributes.
use quote::ToTokens;
use syn::{parse_str, Data, DeriveInput, Fields, GenericParam, Meta, Type};
use vstd::prelude::*;
use crate::derive_plan::VariantShape;

verus! {

/// The kind of a generic parameter.
#[derive(Debug, PartialEq, Eq, Structural, Clone, Copy)]
pub enum GenericKind {
    /// A lifetime `'a`.
    Lifetime,
    /// A type parameter `T`.
    Type,
    /// A const parameter `const N: T`.
    Const,
}

/// How the fields of a struct are written.
#[derive(Debug, PartialEq, Eq, Structural, Clone, Copy)]
pub enum FieldsForm {
    /// `{ a: A, .. }`.
    Named,
    /// `(A, ..)`.
    Unnamed,
    /// No fields.
    Unit,
}

/// What kind of item it is, with the number of its fields or variants.
#[derive(Debug, PartialEq, Eq, Structural, Clone, Copy)]
pub enum ItemKind {
    /// A struct with this many fields.
    Struct(FieldsForm, usize),
    /// An enum with this many variants.
    Enum(usize),
    /// A union.
    Union,
}

// ---------------------------------------------------------------------------
// The texts of the parts, as values.
// ---------------------------------------------------------------------------

/// The head of an item.
pub struct HeadV {
    pub name: Seq<char>,
    pub params: nat,
    pub where_clause: Seq<char>,
    pub kind: ItemKind,
    pub text: Seq<char>,
}

/// A generic parameter: its name (a lifetime with its quote), the text of
/// its bounds, and for a const parameter its type.
pub struct ParamV {
    pub kind: GenericKind,
    pub name: Seq<char>,
    pub bounds: Seq<char>,
    pub ty: Seq<char>,
}

/// A field of a struct: how it is reached (its name, or its index), the
/// last segment of its type's path if the type is a path, its type, and the
/// number of its attributes.
pub struct FieldV {
    pub member: Seq<char>,
    pub last_segment: Option<Seq<char>>,
    pub ty: Seq<char>,
    pub attrs: nat,
}

/// A variant of an enum: its name, its fields, the type of its first field
/// (empty without one), and the number of its attributes.
pub struct VariantV {
    pub ident: Seq<char>,
    pub shape: VariantShape,
    pub first_type: Seq<char>,
    pub attrs: nat,
}

/// An attribute: its path, and the tokens between its brackets (empty where
/// it has none).
pub struct AttrV {
    pub path: Seq<char>,
    pub args: Seq<char>,
}

// ---------------------------------------------------------------------------
// What `syn` reads, named.
// ---------------------------------------------------------------------------

/// The item that the text is, with all its parts, as
/// `syn::parse_str::<syn::DeriveInput>` reads it; `None` where the text is
/// not such an item.
pub uninterp spec fn parsed_item(text: Seq<char>) -> Option<ItemV>;

/// The counts in the head of an item agree with its parts: the number of
/// generic parameters, of fields or variants, and of each one's attributes.
pub open spec fn counts_agree(v: ItemV) -> bool {
    &&& v.params.len() == v.head.params
    &&& v.fields.len() == match v.head.kind {
        ItemKind::Struct(_, n) => n as nat,
        _ => 0,
    }
    &&& v.variants.len() == match v.head.kind {
        ItemKind::Enum(n) => n as nat,
        _ => 0,
    }
    &&& forall|i: int| 0 <= i < v.fields.len() ==> (#[trigger] v.fields[i]).1.len() == v.fields[i].0.attrs
    &&& forall|i: int| 0 <= i < v.variants.len() ==> (#[trigger] v.variants[i]).1.len() == v.variants[i].0.attrs
}

/// The item that `text` reads as, where it reads as one.
pub open spec fn parsed(text: Seq<char>) -> ItemV {
    parsed_item(text)->0
}

// ---------------------------------------------------------------------------
// The parts, as executable values.
// ---------------------------------------------------------------------------

/// The head of an item.
pub struct ItemHead {
    pub name: String,
    pub params: usize,
    pub where_clause: String,
    pub kind: ItemKind,
    pub text: String,
}

impl View for ItemHead {
    type V = HeadV;

    open spec fn view(&self) -> HeadV {
        HeadV {
            name: self.name@,
            params: self.params as nat,
            where_clause: self.where_clause@,
            kind: self.kind,
            text: self.text@,
        }
    }
}

/// A generic parameter.
pub struct GenericParts {
    pub kind: GenericKind,
    pub name: String,
    pub bounds: String,
    pub ty: String,
}

impl View for GenericParts {
    type V = ParamV;

    open spec fn view(&self) -> ParamV {
        ParamV { kind: self.kind, name: self.name@, bounds: self.bounds@, ty: self.ty@ }
    }
}

/// A field of a struct.
pub struct FieldParts {
    pub member: String,
    pub last_segment: Option<String>,
    pub ty: String,
    pub attrs: usize,
}

impl View for FieldParts {
    type V = FieldV;

    open spec fn view(&self) -> FieldV {
        FieldV {
            member: self.member@,
            last_segment: match self.last_segment {
                Some(s) => Some(s@),
                None => None,
            },
            ty: self.ty@,
            attrs: self.attrs as nat,
        }
    }
}

/// A variant of an enum.
pub struct VariantParts {
    pub ident: String,
    pub shape: VariantShape,
    pub first_type: String,
    pub attrs: usize,
}

impl View for VariantParts {
    type V = VariantV;

    open spec fn view(&self) -> VariantV {
        VariantV {
            ident: self.ident@,
            shape: self.shape,
            first_type: self.first_type@,
            attrs: self.attrs as nat,
        }
    }
}

/// An attribute.
pub struct AttrParts {
    pub path: String,
    pub args: String,
}

impl View for AttrParts {
    type V = AttrV;

    open spec fn view(&self) -> AttrV {
        AttrV { path: self.path@, args: self.args@ }
    }
}

// ---------------------------------------------------------------------------
// The calls of `syn`. Each reads the text with
// `syn::parse_str::<syn::DeriveInput>` and hands out one part of what it
// read, as text; what it reads is named by `parsed_item`, since Rust's
// grammar of items is not spelled out here.
// ---------------------------------------------------------------------------

/// `syn::parse_str::<syn::DeriveInput>` on the text, of which the head is
/// handed out: the name, the number of generic parameters, the where
/// clause, the kind with the number of fields or variants, and the tokens
/// of the whole item, printed again; `None` where `syn` refuses the text.
/// Claimed: the answer is the head of `parsed_item` of the text, and the
/// counts in it are those of the parts that the other calls hand out.
#[verifier::external_body]
fn item_head(text: &str) -> (r: Option<ItemHead>)
    ensures
        r is None <==> parsed_item(text@) is None,
        r matches Some(h) ==> parsed(text@).head == h@ && counts_agree(parsed(text@)),
{
    let ast = parse_str::<DeriveInput>(text).ok()?;
    let kind = match &ast.data {
        Data::Struct(s) => match &s.fields {
            Fields::Named(f) => ItemKind::Struct(FieldsForm::Named, f.named.len()),
            Fields::Unnamed(f) => ItemKind::Struct(FieldsForm::Unnamed, f.unnamed.len()),
            Fields::Unit => ItemKind::Struct(FieldsForm::Unit, 0),
        },
        Data::Enum(e) => ItemKind::Enum(e.variants.len()),
        Data::Union(_) => ItemKind::Union,
    };
    let where_clause = ast.generics.where_clause.to_token_stream().to_string();
    let text = ast.to_token_stream().to_string();
    Some(ItemHead { name: ast.ident.to_string(), params: ast.generics.params.len(), where_clause, kind, text })
}

/// `syn::parse_str::<syn::DeriveInput>` on the text, of which generic
/// parameter `i` is handed out: its kind, its name, the tokens of its
/// bounds and, for a const parameter, of its type. Claimed: it is
/// parameter `i` of `parsed_item` of the text.
#[verifier::external_body]
fn item_param(text: &str, i: usize) -> (r: GenericParts)
    requires
        parsed_item(text@) is Some,
        i < parsed(text@).params.len(),
    ensures
        r@ == parsed(text@).params[i as int],
{
    let ast = parse_str::<DeriveInput>(text).unwrap();
    match &ast.generics.params[i] {
        GenericParam::Lifetime(l) => GenericParts { kind: GenericKind::Lifetime, name: l.lifetime.to_string(), bounds: l.bounds.to_token_stream().to_string(), ty: String::new() },
        GenericParam::Type(t) => GenericParts { kind: GenericKind::Type, name: t.ident.to_string(), bounds: t.bounds.to_token_stream().to_string(), ty: String::new() },
        GenericParam::Const(c) => GenericParts { kind: GenericKind::Const, name: c.ident.to_string(), bounds: String::new(), ty: c.ty.to_token_stream().to_string() },
    }
}

/// `syn::parse_str::<syn::DeriveInput>` on the text of a struct, of which
/// field `i` is handed out: its name (its index for an unnamed field), the
/// last segment of its type where that is a path, the tokens of its type,
/// and the number of its attributes. Claimed: it is field `i` of
/// `parsed_item` of the text.
#[verifier::external_body]
fn item_field(text: &str, i: usize) -> (r: FieldParts)
    requires
        parsed_item(text@) is Some,
        i < parsed(text@).fields.len(),
    ensures
        r@ == parsed(text@).fields[i as int].0,
{
    let ast = parse_str::<DeriveInput>(text).unwrap();
    let f = match &ast.data { Data::Struct(s) => s.fields.iter().nth(i), _ => None }.unwrap();
    let last_segment = match &f.ty {
        Type::Path(p) => p.path.segments.last().map(|s| s.ident.to_string()),
        _ => None,
    };
    let member = match &f.ident { Some(id) => id.to_string(), None => i.to_string() };
    FieldParts { member, last_segment, ty: f.ty.to_token_stream().to_string(), attrs: f.attrs.len() }
}

/// `syn::parse_str::<syn::DeriveInput>` on the text of a struct, of which
/// attribute `j` of field `i` is handed out: the tokens of its path and
/// those inside its brackets. Claimed: it is that attribute in
/// `parsed_item` of the text.
#[verifier::external_body]
fn field_attr(text: &str, i: usize, j: usize) -> (r: AttrParts)
    requires
        parsed_item(text@) is Some,
        i < parsed(text@).fields.len(),
        j < parsed(text@).fields[i as int].1.len(),
    ensures
        r@ == parsed(text@).fields[i as int].1[j as int],
{
    let ast = parse_str::<DeriveInput>(text).unwrap();
    let f = match &ast.data { Data::Struct(s) => s.fields.iter().nth(i), _ => None }.unwrap();
    let a = &f.attrs[j];
    let args = match &a.meta { Meta::List(l) => l.tokens.to_string(), _ => String::new() };
    AttrParts { path: a.path().to_token_stream().to_string(), args }
}

/// `syn::parse_str::<syn::DeriveInput>` on the text of an enum, of which
/// variant `i` is handed out: its name, the form and number of its fields,
/// the tokens of its first field's type, and the number of its attributes.
/// Claimed: it is variant `i` of `parsed_item` of the text.
#[verifier::external_body]
fn item_variant(text: &str, i: usize) -> (r: VariantParts)
    requires
        parsed_item(text@) is Some,
        i < parsed(text@).variants.len(),
    ensures
        r@ == parsed(text@).variants[i as int].0,
{
    let ast = parse_str::<DeriveInput>(text).unwrap();
    let v = match &ast.data { Data::Enum(e) => e.variants.iter().nth(i), _ => None }.unwrap();
    let shape = match &v.fields {
        Fields::Named(_) => VariantShape::Named,
        Fields::Unnamed(f) => VariantShape::Tuple(f.unnamed.len()),
        Fields::Unit => VariantShape::Unit,
    };
    let first_type = v.fields.iter().next().map(|f| f.ty.to_token_stream().to_string()).unwrap_or_default();
    VariantParts { ident: v.ident.to_string(), shape, first_type, attrs: v.attrs.len() }
}

/// `syn::parse_str::<syn::DeriveInput>` on the text of an enum, of which
/// attribute `j` of variant `i` is handed out: the tokens of its path and
/// those inside its brackets. Claimed: it is that attribute in
/// `parsed_item` of the text.
#[verifier::external_body]
fn variant_attr(text: &str, i: usize, j: usize) -> (r: AttrParts)
    requires
        parsed_item(text@) is Some,
        i < parsed(text@).variants.len(),
        j < parsed(text@).variants[i as int].1.len(),
    ensures
        r@ == parsed(text@).variants[i as int].1[j as int],
{
    let ast = parse_str::<DeriveInput>(text).unwrap();
    let v = match &ast.data { Data::Enum(e) => e.variants.iter().nth(i), _ => None }.unwrap();
    let a = &v.attrs[j];
    let args = match &a.meta { Meta::List(l) => l.tokens.to_string(), _ => String::new() };
    AttrParts { path: a.path().to_token_stream().to_string(), args }
}

// ---------------------------------------------------------------------------
// The whole item.
// ---------------------------------------------------------------------------

/// An item with all its parts; a struct has no variants, an enum no fields.
#[verifier::ext_equal]
pub struct ItemV {
    pub head: HeadV,
    pub params: Seq<ParamV>,
    pub fields: Seq<(FieldV, Seq<AttrV>)>,
    pub variants: Seq<(VariantV, Seq<AttrV>)>,
}

/// An item with all its parts.
pub struct ItemShape {
    pub head: ItemHead,
    pub params: Vec<GenericParts>,
    pub fields: Vec<(FieldParts, Vec<AttrParts>)>,
    pub variants: Vec<(VariantParts, Vec<AttrParts>)>,
}

/// The texts of a list of attributes.
pub open spec fn attrs_view(attrs: Seq<AttrParts>) -> Seq<AttrV> {
    attrs.map_values(|a: AttrParts| a@)
}

impl View for ItemShape {
    type V = ItemV;

    open spec fn view(&self) -> ItemV {
        ItemV {
            head: self.head@,
            params: self.params@.map_values(|p: GenericParts| p@),
            fields: self.fields@.map_values(
                |f: (FieldParts, Vec<AttrParts>)| (f.0@, attrs_view(f.1@)),
            ),
            variants: self.variants@.map_values(
                |v: (VariantParts, Vec<AttrParts>)| (v.0@, attrs_view(v.1@)),
            ),
        }
    }
}

fn read_field_attrs(text: &str, i: usize, count: usize) -> (r: Vec<AttrParts>)
    requires
        parsed_item(text@) is Some,
        i < parsed(text@).fields.len(),
        count == parsed(text@).fields[i as int].1.len(),
    ensures
        attrs_view(r@) == parsed(text@).fields[i as int].1,
{
    let mut r: Vec<AttrParts> = Vec::new();
    let mut j: usize = 0;
    while j < count
        invariant
            parsed_item(text@) is Some,
            i < parsed(text@).fields.len(),
            count == parsed(text@).fields[i as int].1.len(),
            j <= count,
            r@.len() == j,
            forall|k: int| 0 <= k < j ==> (#[trigger] r@[k])@ == parsed(text@).fields[i as int].1[k],
        decreases count - j,
    {
        r.push(field_attr(text, i, j));
        j = j + 1;
    }
    assert(attrs_view(r@) =~= parsed(text@).fields[i as int].1);
    r
}

fn read_variant_attrs(text: &str, i: usize, count: usize) -> (r: Vec<AttrParts>)
    requires
        parsed_item(text@) is Some,
        i < parsed(text@).variants.len(),
        count == parsed(text@).variants[i as int].1.len(),
    ensures
        attrs_view(r@) == parsed(text@).variants[i as int].1,
{
    let mut r: Vec<AttrParts> = Vec::new();
    let mut j: usize = 0;
    while j < count
        invariant
            parsed_item(text@) is Some,
            i < parsed(text@).variants.len(),
            count == parsed(text@).variants[i as int].1.len(),
            j <= count,
            r@.len() == j,
            forall|k: int| 0 <= k < j ==> (#[trigger] r@[k])@ == parsed(text@).variants[i as int].1[k],
        decreases count - j,
    {
        r.push(variant_attr(text, i, j));
        j = j + 1;
    }
    assert(attrs_view(r@) =~= parsed(text@).variants[i as int].1);
    r
}

/// Reads the item that the text is, with all its parts: `None` where the
/// text is not an item that a derive can be applied to.
pub fn read_item(text: &str) -> (r: Option<ItemShape>)
    ensures
        r is None <==> parsed_item(text@) is None,
        r matches Some(s) ==> parsed_item(text@) == Some(s@),
{
    let head = match item_head(text) {
        None => return None,
        Some(h) => h,
    };
    let ghost v = parsed(text@);
    let mut params: Vec<GenericParts> = Vec::new();
    let mut i: usize = 0;
    while i < head.params
        invariant
            parsed_item(text@) is Some,
            v == parsed(text@),
            counts_agree(v),
            v.head == head@,
            i <= head.params,
            params@.len() == i,
            forall|k: int| 0 <= k < i ==> (#[trigger] params@[k])@ == v.params[k],
        decreases head.params - i,
    {
        params.push(item_param(text, i));
        i = i + 1;
    }
    let mut fields: Vec<(FieldParts, Vec<AttrParts>)> = Vec::new();
    let mut variants: Vec<(VariantParts, Vec<AttrParts>)> = Vec::new();
    match head.kind {
        ItemKind::Struct(_, n) => {
            let mut k: usize = 0;
            while k < n
                invariant
                    parsed_item(text@) is Some,
                    v == parsed(text@),
                    counts_agree(v),
                    v.head == head@,
                    head.kind matches ItemKind::Struct(_, m) && m == n,
                    k <= n,
                    fields@.len() == k,
                    forall|x: int|
                        0 <= x < k ==> ((#[trigger] fields@[x]).0@, attrs_view(fields@[x].1@)) == v.fields[x],
                decreases n - k,
            {
                let f = item_field(text, k);
                let c = f.attrs;
                let attrs = read_field_attrs(text, k, c);
                fields.push((f, attrs));
                k = k + 1;
            }
        },
        ItemKind::Enum(n) => {
            let mut k: usize = 0;
            while k < n
                invariant
                    parsed_item(text@) is Some,
                    v == parsed(text@),
                    counts_agree(v),
                    v.head == head@,
                    head.kind matches ItemKind::Enum(m) && m == n,
                    k <= n,
                    variants@.len() == k,
                    forall|x: int|
                        0 <= x < k ==> ((#[trigger] variants@[x]).0@, attrs_view(variants@[x].1@)) == v.variants[x],
                decreases n - k,
            {
                let w = item_variant(text, k);
                let c = w.attrs;
                let attrs = read_variant_attrs(text, k, c);
                variants.push((w, attrs));
                k = k + 1;
            }
        },
        ItemKind::Union => {},
    }
    let shape = ItemShape { head, params, fields, variants };
    assert(shape@.params =~= v.params);
    assert(shape@.fields =~= v.fields);
    assert(shape@.variants =~= v.variants);
    assert(shape@ =~= v);
    Some(shape)
}

} // verus!
