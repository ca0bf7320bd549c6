//! The decisions of the derives that bind a Rust type to a Java object:
//! which field holds the object, how the other fields are filled, and how
//! an enum picks its variant for a Java object.
use vstd::prelude::*;
use crate::text::str_eq;

verus! {

// ---------------------------------------------------------------------------
// The field that holds the Java object.
// ---------------------------------------------------------------------------

/// Whether a type, named by the last segment of its path, is the type of
/// Java objects, `Instance`.
pub fn is_instance_type_name(last_segment: &str) -> (r: bool)
    ensures
        r == (last_segment@ == "Instance"@),
{
    str_eq(last_segment, "Instance")
}

/// Field `i` is the only one marked.
pub open spec fn only_marked_at(marks: Seq<bool>, i: int) -> bool {
    &&& 0 <= i < marks.len()
    &&& marks[i]
    &&& forall|j: int| 0 <= j < marks.len() && j != i ==> !marks[j]
}

/// The field that holds the Java object, given which fields have the type
/// `Instance`: there must be exactly one.
pub fn instance_field(is_instance: &Vec<bool>) -> (r: Option<usize>)
    ensures
        r matches Some(i) ==> only_marked_at(is_instance@, i as int),
        r is None ==> forall|i: int| !only_marked_at(is_instance@, i),
{
    let mut found: Option<usize> = None;
    let mut i: usize = 0;
    while i < is_instance.len()
        invariant
            i <= is_instance@.len(),
            found matches Some(f) ==> f < i && is_instance@[f as int] && forall|j: int|
                0 <= j < i && j != f ==> !is_instance@[j],
            found is None ==> forall|j: int| 0 <= j < i ==> !is_instance@[j],
        decreases is_instance@.len() - i,
    {
        if is_instance[i] {
            if found.is_some() {
                return None;
            }
            found = Some(i);
        }
        i = i + 1;
    }
    found
}

// ---------------------------------------------------------------------------
// How the fields of a struct are filled from a Java object.
// ---------------------------------------------------------------------------

/// The `#[default(..)]` attribute of a field.
#[derive(PartialEq, Eq, Structural, Clone, Copy)]
pub enum DefaultAttr {
    /// None is given.
    Absent,
    /// `#[default(value = ..)]`: the field takes the given value.
    Value,
    /// `#[default(fn_name = ..)]`: the field takes what the given function
    /// makes of the Java object.
    Function,
}

/// What a field is filled with.
#[derive(PartialEq, Eq, Structural, Clone, Copy)]
pub enum FieldInit {
    /// The Java object itself.
    Instance,
    /// The value of its `#[default(value = ..)]`.
    Value,
    /// What the function of its `#[default(fn_name = ..)]` makes of the
    /// Java object.
    Function,
    /// Its type's `Default`.
    TypeDefault,
}

/// What the derive knows of a field.
#[derive(PartialEq, Eq, Structural, Clone, Copy)]
pub struct FieldInfo {
    /// Its type is `Instance`.
    pub is_instance: bool,
    /// Its `#[default(..)]` attribute.
    pub default_attr: DefaultAttr,
}

/// The first field of type `Instance`.
pub open spec fn first_instance(fields: Seq<FieldInfo>) -> Option<int>
    decreases fields.len(),
{
    if fields.len() == 0 {
        None
    } else {
        match first_instance(fields.drop_last()) {
            Some(i) => Some(i),
            None => if fields.last().is_instance {
                Some(fields.len() - 1)
            } else {
                None
            },
        }
    }
}

/// What field `i` is filled with: the first field of type `Instance` takes
/// the Java object, every other field what its attribute says.
pub open spec fn field_init(fields: Seq<FieldInfo>, i: int) -> FieldInit {
    if first_instance(fields) == Some(i) {
        FieldInit::Instance
    } else {
        match fields[i].default_attr {
            DefaultAttr::Absent => FieldInit::TypeDefault,
            DefaultAttr::Value => FieldInit::Value,
            DefaultAttr::Function => FieldInit::Function,
        }
    }
}

/// How each field of a struct is filled from a Java object.
pub fn plan_struct_fields(fields: &Vec<FieldInfo>) -> (r: Vec<FieldInit>)
    ensures
        r@.len() == fields@.len(),
        forall|i: int| 0 <= i < fields@.len() ==> #[trigger] r@[i] == field_init(fields@, i),
{
    let mut first: Option<usize> = None;
    let mut i: usize = 0;
    while i < fields.len()
        invariant
            i <= fields@.len(),
            first_instance(fields@.take(i as int)) == match first {
                Some(f) => Some(f as int),
                None => None::<int>,
            },
        decreases fields@.len() - i,
    {
        assert(fields@.take(i + 1).drop_last() =~= fields@.take(i as int));
        if first.is_none() && fields[i].is_instance {
            first = Some(i);
        }
        i = i + 1;
    }
    assert(fields@.take(fields@.len() as int) =~= fields@);
    let mut r: Vec<FieldInit> = Vec::new();
    let mut k: usize = 0;
    while k < fields.len()
        invariant
            k <= fields@.len(),
            first_instance(fields@) == match first {
                Some(f) => Some(f as int),
                None => None::<int>,
            },
            r@.len() == k,
            forall|j: int| 0 <= j < k ==> #[trigger] r@[j] == field_init(fields@, j),
        decreases fields@.len() - k,
    {
        let init = if first == Some(k) {
            FieldInit::Instance
        } else {
            match fields[k].default_attr {
                DefaultAttr::Absent => FieldInit::TypeDefault,
                DefaultAttr::Value => FieldInit::Value,
                DefaultAttr::Function => FieldInit::Function,
            }
        };
        r.push(init);
        k = k + 1;
    }
    r
}

// ---------------------------------------------------------------------------
// How an enum picks its variant for a Java object.
// ---------------------------------------------------------------------------

/// The fields of a variant.
#[derive(PartialEq, Eq, Structural, Clone, Copy)]
pub enum VariantShape {
    /// Unnamed fields, this many of them.
    Tuple(usize),
    /// No fields.
    Unit,
    /// Named fields.
    Named,
}

/// What the derive knows of a variant.
#[derive(PartialEq, Eq, Structural, Clone, Copy)]
pub struct VariantInfo {
    /// Its fields.
    pub shape: VariantShape,
    /// It carries the `#[fall]` attribute.
    pub fall: bool,
}

/// Why an enum cannot be read from a Java object.
#[derive(PartialEq, Eq, Structural, Clone, Copy, Debug)]
pub enum EnumPlanError {
    /// The variant at this index has unnamed fields, but none of them.
    EmptyTupleVariant(usize),
    /// The variant at this index has named fields.
    NamedVariant(usize),
}

/// The plan: the variants tested in turn, each by the class of its first
/// field, and the variant taken when none of the tests succeeds.
pub struct EnumPlan {
    /// The indices of the tested variants, in order.
    pub tested: Vec<usize>,
    /// The variant taken when no test succeeds; with none, reading fails.
    pub fall: Option<usize>,
}

/// A shape that no arm can be made for.
pub open spec fn unusable(shape: VariantShape) -> bool {
    shape == VariantShape::Tuple(0) || shape == VariantShape::Named
}

/// The error for an unusable variant at `i`.
pub open spec fn shape_error(shape: VariantShape, i: int) -> EnumPlanError {
    if shape == VariantShape::Named {
        EnumPlanError::NamedVariant(i as usize)
    } else {
        EnumPlanError::EmptyTupleVariant(i as usize)
    }
}

/// The last variant marked `#[fall]`.
pub open spec fn last_fall(vs: Seq<VariantInfo>) -> Option<int>
    decreases vs.len(),
{
    if vs.len() == 0 {
        None
    } else if vs.last().fall {
        Some(vs.len() - 1)
    } else {
        last_fall(vs.drop_last())
    }
}

/// The variant taken when no test succeeds: the last one marked `#[fall]`;
/// with none marked, no variant is taken and reading fails.
pub open spec fn fall_arm(vs: Seq<VariantInfo>) -> Option<int> {
    last_fall(vs)
}

/// The first unmarked variant that no arm can be made for.
pub open spec fn first_unusable(vs: Seq<VariantInfo>) -> Option<int>
    decreases vs.len(),
{
    if vs.len() == 0 {
        None
    } else {
        match first_unusable(vs.drop_last()) {
            Some(i) => Some(i),
            None => if !vs.last().fall && unusable(vs.last().shape) {
                Some(vs.len() - 1)
            } else {
                None
            },
        }
    }
}

/// An unmarked variant with unnamed fields.
pub open spec fn testable(v: VariantInfo) -> bool {
    !v.fall && match v.shape {
        VariantShape::Tuple(m) => m > 0,
        _ => false,
    }
}

/// The unmarked variants with unnamed fields, in order: each gets a test.
pub open spec fn tested_variants(vs: Seq<VariantInfo>) -> Seq<usize>
    decreases vs.len(),
{
    if vs.len() == 0 {
        Seq::empty()
    } else {
        let before = tested_variants(vs.drop_last());
        if testable(vs.last()) {
            before.push((vs.len() - 1) as usize)
        } else {
            before
        }
    }
}

/// The unmarked variants without fields, in order: each is warned about,
/// since no test can pick it.
pub open spec fn warned_variants(vs: Seq<VariantInfo>) -> Seq<usize>
    decreases vs.len(),
{
    if vs.len() == 0 {
        Seq::empty()
    } else {
        let before = warned_variants(vs.drop_last());
        if !vs.last().fall && vs.last().shape == VariantShape::Unit {
            before.push((vs.len() - 1) as usize)
        } else {
            before
        }
    }
}

/// The outcome for the variants `vs`: the variants looked at in order are
/// warned about or tested until one is unusable; the fall-back variant must
/// be usable too.
pub open spec fn enum_plan_outcome(vs: Seq<VariantInfo>) -> (Seq<usize>, Result<(Seq<usize>, Option<int>), EnumPlanError>) {
    match first_unusable(vs) {
        Some(i) => (warned_variants(vs.take(i)), Err(shape_error(vs[i].shape, i))),
        None => match fall_arm(vs) {
            Some(f) if unusable(vs[f].shape) => (warned_variants(vs), Err(shape_error(vs[f].shape, f))),
            _ => (warned_variants(vs), Ok((tested_variants(vs), fall_arm(vs)))),
        },
    }
}

/// Plans how an enum is read from a Java object. Gives the variants to warn
/// about (those without fields and without `#[fall]`, which no test can
/// pick), then the plan or the error.
pub fn plan_enum(variants: &Vec<VariantInfo>) -> (r: (Vec<usize>, Result<EnumPlan, EnumPlanError>))
    ensures
        r.0@ == enum_plan_outcome(variants@).0,
        match (r.1, enum_plan_outcome(variants@).1) {
            (Ok(p), Ok((tested, fall))) => p.tested@ == tested && match p.fall {
                Some(f) => fall == Some(f as int),
                None => fall is None,
            },
            (Err(e), Err(e2)) => e == e2,
            _ => false,
        },
{
    let ghost vs = variants@;
    let mut warned: Vec<usize> = Vec::new();
    let mut tested: Vec<usize> = Vec::new();
    let mut fall: Option<usize> = None;
    let mut i: usize = 0;
    while i < variants.len()
        invariant
            i <= vs.len(),
            vs == variants@,
            first_unusable(vs.take(i as int)) is None,
            warned@ == warned_variants(vs.take(i as int)),
            tested@ == tested_variants(vs.take(i as int)),
            last_fall(vs.take(i as int)) == match fall {
                Some(f) => Some(f as int),
                None => None::<int>,
            },
        decreases vs.len() - i,
    {
        assert(vs.take(i + 1).drop_last() =~= vs.take(i as int));
        let v = variants[i];
        if v.fall {
            fall = Some(i);
        } else {
            match v.shape {
                VariantShape::Tuple(m) => {
                    if m == 0 {
                        proof {
                            lemma_first_unusable_extends(vs, i as int);
                        }
                        return (warned, Err(EnumPlanError::EmptyTupleVariant(i)));
                    }
                    tested.push(i);
                },
                VariantShape::Unit => {
                    warned.push(i);
                },
                VariantShape::Named => {
                    proof {
                        lemma_first_unusable_extends(vs, i as int);
                    }
                    return (warned, Err(EnumPlanError::NamedVariant(i)));
                },
            }
        }
        i = i + 1;
    }
    assert(vs.take(vs.len() as int) =~= vs);
    proof {
        lemma_last_fall_marked(vs);
    }
    let chosen = fall;
    match chosen {
        Some(f) => match variants[f].shape {
            VariantShape::Tuple(m) => {
                if m == 0 {
                    return (warned, Err(EnumPlanError::EmptyTupleVariant(f)));
                }
            },
            VariantShape::Named => {
                return (warned, Err(EnumPlanError::NamedVariant(f)));
            },
            VariantShape::Unit => {},
        },
        None => {},
    }
    (warned, Ok(EnumPlan { tested, fall: chosen }))
}

/// The last marked variant is a marked variant.
proof fn lemma_last_fall_marked(vs: Seq<VariantInfo>)
    ensures
        last_fall(vs) matches Some(i) ==> 0 <= i < vs.len() && vs[i].fall,
    decreases vs.len(),
{
    if vs.len() > 0 {
        lemma_last_fall_marked(vs.drop_last());
    }
}

/// A variant is tested exactly when it carries no `#[fall]` and has unnamed
/// fields, and the tests come in the order of the variants.
pub proof fn lemma_tested_variants(vs: Seq<VariantInfo>)
    requires
        vs.len() <= usize::MAX,
    ensures
        forall|i: int|
            0 <= i < vs.len() ==> (tested_variants(vs).contains(i as usize) <==> testable(vs[i])),
        forall|k: int| 0 <= k < tested_variants(vs).len() ==> tested_variants(vs)[k] < vs.len(),
        forall|a: int, b: int|
            0 <= a < b < tested_variants(vs).len() ==> tested_variants(vs)[a] < tested_variants(vs)[b],
    decreases vs.len(),
{
    if vs.len() > 0 {
        let p = vs.drop_last();
        let last = vs.len() - 1;
        lemma_tested_variants(p);
        let t = tested_variants(vs);
        let tp = tested_variants(p);
        assert(t == if testable(vs.last()) {
            tp.push(last as usize)
        } else {
            tp
        });
        assert forall|i: int| 0 <= i < vs.len() implies (t.contains(i as usize) <==> testable(
            vs[i],
        )) by {
            if i < last {
                assert(vs[i] == p[i]);
                if t.contains(i as usize) {
                    let k = choose|k: int| 0 <= k < t.len() && t[k] == i as usize;
                    if k == tp.len() {
                        assert(t[k] == last as usize);
                    } else {
                        assert(tp[k] == i as usize);
                    }
                }
                if tp.contains(i as usize) {
                    let k = choose|k: int| 0 <= k < tp.len() && tp[k] == i as usize;
                    assert(t[k] == i as usize);
                }
            } else {
                if t.contains(i as usize) {
                    let k = choose|k: int| 0 <= k < t.len() && t[k] == i as usize;
                    if k < tp.len() {
                        assert(tp[k] == t[k]);
                    }
                }
                if testable(vs[i]) {
                    assert(t[t.len() - 1] == i as usize);
                }
            }
        }
    }
}

/// The fall-back variant is the last one that carries `#[fall]`; when no
/// variant carries it, there is none.
pub proof fn lemma_fall_is_last_marked(vs: Seq<VariantInfo>)
    ensures
        fall_arm(vs) matches Some(i) ==> 0 <= i < vs.len() && vs[i].fall && forall|j: int|
            i < j < vs.len() ==> !vs[j].fall,
        fall_arm(vs) is None <==> forall|j: int| 0 <= j < vs.len() ==> !vs[j].fall,
    decreases vs.len(),
{
    if vs.len() > 0 {
        let p = vs.drop_last();
        lemma_fall_is_last_marked(p);
        assert forall|j: int| 0 <= j < p.len() implies p[j] == vs[j] by {}
    }
}

/// When the variants before `i` are all usable and the one at `i` is not,
/// it is the first unusable one.
proof fn lemma_first_unusable_extends(vs: Seq<VariantInfo>, i: int)
    requires
        0 <= i < vs.len(),
        first_unusable(vs.take(i)) is None,
        !vs[i].fall,
        unusable(vs[i].shape),
    ensures
        first_unusable(vs) == Some(i),
{
    assert(vs.take(i + 1).drop_last() =~= vs.take(i));
    lemma_first_unusable_prefix(vs, i + 1, i);
}

/// Once a prefix has its first unusable variant, every longer prefix has
/// the same one.
proof fn lemma_first_unusable_prefix(vs: Seq<VariantInfo>, k: int, i: int)
    requires
        0 <= k <= vs.len(),
        first_unusable(vs.take(k)) == Some(i),
    ensures
        first_unusable(vs) == Some(i),
    decreases vs.len() - k,
{
    if k < vs.len() {
        assert(vs.take(k + 1).drop_last() =~= vs.take(k));
        lemma_first_unusable_prefix(vs, k + 1, i);
    } else {
        assert(vs.take(k) =~= vs);
    }
}


/// The Java object goes to the first field of type `Instance`: what
/// `first_instance` finds is such a field with none before it, and where it
/// finds none, no field has that type.
pub proof fn lemma_first_instance(fields: Seq<FieldInfo>)
    ensures
        match first_instance(fields) {
            Some(i) => 0 <= i < fields.len() && fields[i].is_instance && forall|j: int|
                0 <= j < i ==> !(#[trigger] fields[j]).is_instance,
            None => forall|j: int| 0 <= j < fields.len() ==> !(#[trigger] fields[j]).is_instance,
        },
    decreases fields.len(),
{
    if fields.len() > 0 {
        let q = fields.drop_last();
        lemma_first_instance(q);
        assert forall|j: int| 0 <= j < q.len() implies q[j] == fields[j] by {}
        match first_instance(q) {
            Some(i) => {
                assert forall|j: int| 0 <= j < i implies !(#[trigger] fields[j]).is_instance by {
                    assert(q[j] == fields[j]);
                }
            },
            None => {
                assert forall|j: int| 0 <= j < q.len() implies !(#[trigger] fields[j]).is_instance by {
                    assert(q[j] == fields[j]);
                }
            },
        }
    }
}


/// A variant is warned about exactly when it carries no `#[fall]` and has no
/// fields, and the warnings come in the order of the variants.
pub proof fn lemma_warned_variants(vs: Seq<VariantInfo>)
    requires
        vs.len() <= usize::MAX,
    ensures
        forall|i: int|
            0 <= i < vs.len() ==> (warned_variants(vs).contains(i as usize) <==> (!vs[i].fall && vs[i].shape
                == VariantShape::Unit)),
        forall|k: int| 0 <= k < warned_variants(vs).len() ==> warned_variants(vs)[k] < vs.len(),
        forall|a: int, b: int|
            0 <= a < b < warned_variants(vs).len() ==> warned_variants(vs)[a] < warned_variants(vs)[b],
    decreases vs.len(),
{
    if vs.len() > 0 {
        let p = vs.drop_last();
        let last = vs.len() - 1;
        lemma_warned_variants(p);
        let t = warned_variants(vs);
        let tp = warned_variants(p);
        let marked = !vs.last().fall && vs.last().shape == VariantShape::Unit;
        assert(t == if marked {
            tp.push(last as usize)
        } else {
            tp
        });
        assert forall|i: int| 0 <= i < vs.len() implies (t.contains(i as usize) <==> (!vs[i].fall && vs[i].shape
            == VariantShape::Unit)) by {
            if i < last {
                assert(vs[i] == p[i]);
                if t.contains(i as usize) {
                    let k = choose|k: int| 0 <= k < t.len() && t[k] == i as usize;
                    if k == tp.len() {
                        assert(t[k] == last as usize);
                    } else {
                        assert(tp[k] == i as usize);
                    }
                }
                if tp.contains(i as usize) {
                    let k = choose|k: int| 0 <= k < tp.len() && tp[k] == i as usize;
                    assert(t[k] == i as usize);
                }
            } else {
                if t.contains(i as usize) {
                    let k = choose|k: int| 0 <= k < t.len() && t[k] == i as usize;
                    if k < tp.len() {
                        assert(tp[k] == t[k]);
                    }
                }
                if marked {
                    assert(t[t.len() - 1] == i as usize);
                }
            }
        }
    }
}

/// What `first_unusable` finds is a variant without `#[fall]` that no arm
/// can be made for, with none such before it; where it finds none, every
/// variant without `#[fall]` is usable.
pub proof fn lemma_first_unusable(vs: Seq<VariantInfo>)
    ensures
        match first_unusable(vs) {
            Some(i) => 0 <= i < vs.len() && !vs[i].fall && unusable(vs[i].shape) && forall|j: int|
                0 <= j < i ==> ((#[trigger] vs[j]).fall || !unusable(vs[j].shape)),
            None => forall|j: int| 0 <= j < vs.len() ==> ((#[trigger] vs[j]).fall || !unusable(vs[j].shape)),
        },
    decreases vs.len(),
{
    if vs.len() > 0 {
        let q = vs.drop_last();
        lemma_first_unusable(q);
        match first_unusable(q) {
            Some(i) => {
                assert(q[i] == vs[i]);
                assert forall|j: int| 0 <= j < i implies ((#[trigger] vs[j]).fall || !unusable(vs[j].shape)) by {
                    assert(q[j] == vs[j]);
                }
            },
            None => {
                assert forall|j: int| 0 <= j < q.len() implies ((#[trigger] vs[j]).fall || !unusable(vs[j].shape)) by {
                    assert(q[j] == vs[j]);
                }
            },
        }
    }
}

} // verus!
