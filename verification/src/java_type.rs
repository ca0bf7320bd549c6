//! The arguments of the `java_type` attribute: the Java class name, then
//! optional bindings `P = Type` that fix generic parameters of the Rust
//! type, and what they do to the generics of the generated impl.
//!
//! `#[java_type("a.b.C", A = i32)] struct S<A, B>` stands for the impl of
//! `S<i32, B>` with the generic parameter `B` alone.
use vstd::prelude::*;
use crate::text::{
    chars_of, in_class, lemma_join_len, lemma_join_take_next, lemma_split_nonempty, join, skip_end, skip_start, split_on, split_ranges, split_trimmed,
    str_eq, trim_end_by, trim_range, trim_start_by, trim_white, CharClass,
};
use vstd::string::{StrSliceExecFns, StringExecFns};

verus! {

/// The parsed arguments of `java_type`.
pub struct JavaTypeAttr<'a> {
    /// The Java class name, still in its string-literal form.
    pub java_name: &'a str,
    /// The bindings `name = value`, in the order written.
    pub bindings: Vec<(&'a str, &'a str)>,
}

/// Why the arguments of `java_type` were refused.
#[derive(Debug, PartialEq, Eq, Structural)]
pub enum JavaTypeAttrError {
    /// The class name is not a string literal.
    ClassNameNotStringLiteral,
    /// A binding after the class name has no `=`.
    MalformedBinding,
}

/// Whether the text is exactly one Rust string literal, as `syn` reads it.
pub uninterp spec fn is_str_literal(text: Seq<char>) -> bool;

/// `syn::parse_str::<syn::LitStr>`: whether the text lexes and parses as
/// exactly one string literal. What it answers is named by `is_str_literal`;
/// Rust's grammar of string literals is not spelled out here.
#[verifier::external_body]
pub(crate) fn parses_as_str_literal(text: &str) -> (r: bool)
    ensures
        r == is_str_literal(text@),
{
    syn::parse_str::<syn::LitStr>(text).is_ok()
}

/// The class name part of the arguments: the text before the first comma,
/// trimmed.
fn class_name_part(text: &str) -> (r: &str)
    ensures
        r@ == attr_parts(text@)[0],
{
    let chars = chars_of(text);
    let n = chars.len();
    assert(chars@.subrange(0, n as int) =~= text@);
    let parts = split_ranges(&chars, 0, n, ',');
    proof {
        lemma_split_nonempty(text@, ',');
    }
    let (a0, b0) = trim_range(&chars, parts[0].0, parts[0].1);
    text.substring_char(a0, b0)
}

/// Reads the arguments of `java_type`, given as the text of their tokens:
/// the class name, which must be a string literal, then bindings
/// `name = value`, all separated by commas.
pub fn parse_java_type_attr(text: &str) -> (r: Result<JavaTypeAttr<'_>, JavaTypeAttrError>)
    ensures
        attr_read_as(text@, is_str_literal(attr_parts(text@)[0]), r),
{
    let name = class_name_part(text);
    let is_literal = parses_as_str_literal(name);
    read_java_type_attr(text, is_literal)
}

/// `r` is what the arguments `text` read as, the class name being a string
/// literal or not as `name_is_literal` says: the class name is checked
/// first, then each binding in turn.
pub open spec fn attr_read_as(
    text: Seq<char>,
    name_is_literal: bool,
    r: Result<JavaTypeAttr<'_>, JavaTypeAttrError>,
) -> bool {
    &&& (r is Ok <==> name_is_literal && attr_well_formed(text))
    &&& r matches Ok(a) ==> {
        &&& a.java_name@ == attr_parts(text)[0]
        &&& a.bindings@.len() == attr_parts(text).len() - 1
        &&& forall|k: int|
            0 <= k < a.bindings@.len() ==> (#[trigger] a.bindings@[k]).0@ == binding_at(text, k).0
                && a.bindings@[k].1@ == binding_at(text, k).1
    }
    &&& r matches Err(e) ==> e == if name_is_literal {
        JavaTypeAttrError::MalformedBinding
    } else {
        JavaTypeAttrError::ClassNameNotStringLiteral
    }
}

/// The comma-separated parts of the arguments, trimmed.
pub open spec fn attr_parts(text: Seq<char>) -> Seq<Seq<char>> {
    split_trimmed(text, ',')
}

/// The `=`-separated parts of one binding, trimmed.
pub open spec fn binding_parts(part: Seq<char>) -> Seq<Seq<char>> {
    split_trimmed(part, '=')
}

/// Every part after the first holds a `=`.
pub open spec fn attr_well_formed(text: Seq<char>) -> bool {
    forall|k: int| 1 <= k < attr_parts(text).len() ==> #[trigger] binding_parts(attr_parts(text)[k]).len() >= 2
}

/// The binding that the part at `k` (after the class name) stands for: the
/// texts before the first `=` and between the first and the second.
pub open spec fn binding_at(text: Seq<char>, k: int) -> (Seq<char>, Seq<char>) {
    let b = binding_parts(attr_parts(text)[k + 1]);
    (b[0], b[1])
}

/// The texts of the bindings.
pub open spec fn binding_views(bindings: Seq<(&str, &str)>) -> Seq<(Seq<char>, Seq<char>)> {
    bindings.map_values(|b: (&str, &str)| (b.0@, b.1@))
}

/// What a name is bound to: the last binding of that name wins.
pub open spec fn lookup_binding(bindings: Seq<(Seq<char>, Seq<char>)>, name: Seq<char>) -> Option<
    Seq<char>,
>
    decreases bindings.len(),
{
    if bindings.len() == 0 {
        None
    } else if bindings.last().0 == name {
        Some(bindings.last().1)
    } else {
        lookup_binding(bindings.drop_last(), name)
    }
}

/// Reads the arguments of `java_type` as [`parse_java_type_attr`] does,
/// where `name_is_literal` tells whether the class name is a string literal.
pub fn read_java_type_attr(text: &str, name_is_literal: bool) -> (r: Result<
    JavaTypeAttr<'_>,
    JavaTypeAttrError,
>)
    ensures
        attr_read_as(text@, name_is_literal, r),
{
    let chars = chars_of(text);
    let n = chars.len();
    assert(chars@.subrange(0, n as int) =~= text@);
    let parts = split_ranges(&chars, 0, n, ',');
    let ghost pieces = split_on(text@, ',');
    proof {
        lemma_split_nonempty(text@, ',');
    }
    if !name_is_literal {
        return Err(JavaTypeAttrError::ClassNameNotStringLiteral);
    }
    let (a0, b0) = trim_range(&chars, parts[0].0, parts[0].1);
    let java_name = text.substring_char(a0, b0);
    let mut bindings: Vec<(&str, &str)> = Vec::new();
    let mut k: usize = 1;
    while k < parts.len()
        invariant
            1 <= k <= parts@.len(),
            name_is_literal,
            chars@ == text@,
            n == chars@.len(),
            parts@.len() == pieces.len(),
            pieces == split_on(text@, ','),
            forall|j: int|
                0 <= j < parts@.len() ==> {
                    &&& 0 <= (#[trigger] parts@[j]).0 <= parts@[j].1 <= n
                    &&& chars@.subrange(parts@[j].0 as int, parts@[j].1 as int) == pieces[j]
                },
            bindings@.len() == k - 1,
            forall|j: int| 1 <= j < k ==> #[trigger] binding_parts(attr_parts(text@)[j]).len() >= 2,
            forall|j: int|
                0 <= j < bindings@.len() ==> (#[trigger] bindings@[j]).0@ == binding_at(text@, j).0
                    && bindings@[j].1@ == binding_at(text@, j).1,
        decreases parts@.len() - k,
    {
        let (a, b) = trim_range(&chars, parts[k].0, parts[k].1);
        let ghost part = attr_parts(text@)[k as int];
        assert(part == chars@.subrange(a as int, b as int));
        let kv = split_ranges(&chars, a, b, '=');
        if kv.len() < 2 {
            assert(binding_parts(part).len() == kv@.len());
            assert(!attr_well_formed(text@)) by {
                assert(binding_parts(attr_parts(text@)[k as int]).len() < 2);
            }
            return Err(JavaTypeAttrError::MalformedBinding);
        }
        let (na, nb) = trim_range(&chars, kv[0].0, kv[0].1);
        let (va, vb) = trim_range(&chars, kv[1].0, kv[1].1);
        bindings.push((text.substring_char(na, nb), text.substring_char(va, vb)));
        k = k + 1;
    }
    Ok(JavaTypeAttr { java_name, bindings })
}

/// Finds what a name is bound to.
fn find_binding<'a>(bindings: &Vec<(&'a str, &'a str)>, name: &str) -> (r: Option<&'a str>)
    ensures
        r is None <==> lookup_binding(binding_views(bindings@), name@) is None,
        r matches Some(v) ==> lookup_binding(binding_views(bindings@), name@) == Some(v@),
{
    let ghost views = binding_views(bindings@);
    let mut j = bindings.len();
    assert(views.take(j as int) =~= views);
    while j > 0
        invariant
            j <= bindings@.len(),
            views == binding_views(bindings@),
            lookup_binding(views.take(j as int), name@) == lookup_binding(views, name@),
        decreases j,
    {
        assert(views.take(j as int).drop_last() =~= views.take(j - 1));
        if str_eq(bindings[j - 1].0, name) {
            return Some(bindings[j - 1].1);
        }
        j = j - 1;
    }
    None
}

/// Whether a generic parameter of the Rust type stays a generic parameter
/// of the generated impl: lifetimes always do, other parameters unless the
/// arguments bind them.
pub fn keeps_generic_param(is_lifetime: bool, name: &str, attr: &JavaTypeAttr) -> (r: bool)
    ensures
        r == (is_lifetime || lookup_binding(binding_views(attr.bindings@), name@) is None),
{
    if is_lifetime {
        true
    } else {
        find_binding(&attr.bindings, name).is_none()
    }
}

/// The names in the text of a type's generic arguments, such as `< A , B >`.
pub open spec fn generic_names(t: Seq<char>) -> Seq<Seq<char>> {
    split_trimmed(
        trim_end_by(
            trim_start_by(trim_white(t), in_class(CharClass::Is('<'))),
            in_class(CharClass::Is('>')),
        ),
        ',',
    )
}

/// What a name stands for: its binding if it has one, else itself.
pub open spec fn bound_or_kept(bindings: Seq<(Seq<char>, Seq<char>)>, name: Seq<char>) -> Seq<char> {
    match lookup_binding(bindings, name) {
        Some(v) => v,
        None => name,
    }
}

/// The names with the bindings put in.
pub open spec fn generic_args(t: Seq<char>, bindings: Seq<(Seq<char>, Seq<char>)>) -> Seq<Seq<char>> {
    generic_names(t).map_values(|n: Seq<char>| bound_or_kept(bindings, n))
}

/// A generic parameter that the arguments bind is replaced by its binding
/// among the generic arguments of the type (and `keeps_generic_param` drops
/// it from the impl); one that they do not bind stays as it is (and the
/// impl keeps it).
pub proof fn lemma_binding_moves_param(t: Seq<char>, bindings: Seq<(Seq<char>, Seq<char>)>, k: int)
    requires
        0 <= k < generic_names(t).len(),
    ensures
        generic_args(t, bindings).len() == generic_names(t).len(),
        lookup_binding(bindings, generic_names(t)[k]) is None ==> generic_args(t, bindings)[k]
            == generic_names(t)[k],
        lookup_binding(bindings, generic_names(t)[k]) is Some ==> generic_args(t, bindings)[k]
            == lookup_binding(bindings, generic_names(t)[k])->0,
{
}

/// The generic arguments with the bindings put in, written `<X,Y>`; nothing
/// where there are none.
pub open spec fn substituted_generics(t: Seq<char>, bindings: Seq<(Seq<char>, Seq<char>)>) -> Seq<
    char,
> {
    let joined = join(generic_args(t, bindings), ","@);
    if joined.len() == 0 {
        Seq::empty()
    } else {
        "<"@ + joined + ">"@
    }
}

/// The type keeps its generic arguments in the impl: with no bindings,
/// every name stands as it is; and whenever some argument is not blank
/// (the type has generic parameters), the arguments are written in angle
/// brackets, `,` between each two, each name replaced by its binding where
/// it has one. Bindings never make the arguments vanish.
pub proof fn lemma_type_keeps_its_generic_arguments(t: Seq<char>, bindings: Seq<(Seq<char>, Seq<char>)>)
    ensures
        generic_args(t, bindings).len() == generic_names(t).len(),
        bindings.len() == 0 ==> generic_args(t, bindings) == generic_names(t),
        forall|k: int|
            0 <= k < generic_names(t).len() && (#[trigger] generic_args(t, bindings)[k]).len() > 0
                ==> substituted_generics(t, bindings) == "<"@ + join(generic_args(t, bindings), ","@) + ">"@,
{
    let args = generic_args(t, bindings);
    if bindings.len() == 0 {
        assert forall|k: int| 0 <= k < generic_names(t).len() implies args[k] == generic_names(t)[k] by {
            assert(lookup_binding(bindings, generic_names(t)[k]) is None);
        }
        assert(args =~= generic_names(t));
    }
    lemma_join_len(args, ","@);
}

/// The generic arguments of the type in the generated impl: each name in
/// `ty_generics` (the text of the type's generic arguments) is replaced by
/// its binding where it has one.
pub fn substitute_ty_generics(ty_generics: &str, attr: &JavaTypeAttr) -> (r: String)
    ensures
        r@ == substituted_generics(ty_generics@, binding_views(attr.bindings@)),
{
    let ghost views = binding_views(attr.bindings@);
    let chars = chars_of(ty_generics);
    let n = chars.len();
    assert(chars@.subrange(0, n as int) =~= ty_generics@);
    let (a, b) = trim_range(&chars, 0, n);
    let a2 = skip_start(&chars, a, b, &CharClass::Is('<'));
    assert(chars@.subrange(a2 as int, b as int) =~= chars@.subrange(a as int, b as int).subrange(
        a2 - a,
        b - a,
    ));
    let b2 = skip_end(&chars, a2, b, &CharClass::Is('>'));
    let pieces = split_ranges(&chars, a2, b2, ',');
    let ghost names = generic_names(ty_generics@);
    let ghost items = names.map_values(|m: Seq<char>| bound_or_kept(views, m));
    assert(names =~= split_on(chars@.subrange(a2 as int, b2 as int), ',').map_values(
        |p: Seq<char>| trim_white(p),
    ));
    let mut joined = String::new();
    let mut k: usize = 0;
    while k < pieces.len()
        invariant
            k <= pieces@.len(),
            chars@ == ty_generics@,
            n == chars@.len(),
            a2 <= b2 <= n,
            views == binding_views(attr.bindings@),
            names == split_on(chars@.subrange(a2 as int, b2 as int), ',').map_values(
                |p: Seq<char>| trim_white(p),
            ),
            items == names.map_values(|m: Seq<char>| bound_or_kept(views, m)),
            pieces@.len() == names.len(),
            forall|j: int|
                0 <= j < pieces@.len() ==> {
                    &&& a2 <= (#[trigger] pieces@[j]).0 <= pieces@[j].1 <= b2
                    &&& chars@.subrange(pieces@[j].0 as int, pieces@[j].1 as int) == split_on(
                        chars@.subrange(a2 as int, b2 as int),
                        ',',
                    )[j]
                },
            joined@ == join(items.take(k as int), ","@),
        decreases pieces@.len() - k,
    {
        proof {
            lemma_join_take_next(items, ","@, k as int);
        }
        let (pa, pb) = trim_range(&chars, pieces[k].0, pieces[k].1);
        let name = ty_generics.substring_char(pa, pb);
        let replacement = match find_binding(&attr.bindings, name) {
            Some(v) => v,
            None => name,
        };
        assert(replacement@ == items[k as int]);
        if k == 0 {
            joined = String::from_str(replacement);
        } else {
            joined.append(",");
            joined.append(replacement);
        }
        k = k + 1;
    }
    assert(items.take(pieces@.len() as int) =~= items);
    assert(items == generic_args(ty_generics@, views));
    if joined.unicode_len() == 0 {
        String::new()
    } else {
        let mut s = String::from_str("<");
        s.append(joined.as_str());
        s.append(">");
        s
    }
}


/// The last binding of a name wins: what `lookup_binding` gives is the value
/// of a binding of that name with no binding of it after; where it gives
/// nothing, no binding has that name.
pub proof fn lemma_lookup_binding(bindings: Seq<(Seq<char>, Seq<char>)>, name: Seq<char>)
    ensures
        match lookup_binding(bindings, name) {
            Some(v) => exists|k: int|
                0 <= k < bindings.len() && #[trigger] bindings[k] == (name, v) && forall|j: int|
                    k < j < bindings.len() ==> (#[trigger] bindings[j]).0 != name,
            None => forall|j: int| 0 <= j < bindings.len() ==> (#[trigger] bindings[j]).0 != name,
        },
    decreases bindings.len(),
{
    if bindings.len() > 0 {
        let q = bindings.drop_last();
        let last = bindings.len() - 1;
        lemma_lookup_binding(q, name);
        if bindings.last().0 == name {
            let v = bindings.last().1;
            assert(bindings[last] == (name, v));
        } else {
            match lookup_binding(q, name) {
                Some(v) => {
                    let k = choose|k: int|
                        0 <= k < q.len() && #[trigger] q[k] == (name, v) && forall|j: int|
                            k < j < q.len() ==> (#[trigger] q[j]).0 != name;
                    assert(bindings[k] == q[k]);
                    assert forall|j: int| k < j < bindings.len() implies (#[trigger] bindings[j]).0 != name by {
                        if j < last {
                            assert(q[j] == bindings[j]);
                        }
                    }
                },
                None => {
                    assert forall|j: int| 0 <= j < bindings.len() implies (#[trigger] bindings[j]).0 != name by {
                        if j < last {
                            assert(q[j] == bindings[j]);
                        }
                    }
                },
            }
        }
    }
}

} // verus!
