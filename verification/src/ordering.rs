//! How a comparison result crosses the bridge. Java's `Comparator` speaks
//! of an `int` whose sign is the answer; Rust's `Ordering` is sent to Java
//! as the byte that its representation holds.
use core::cmp::Ordering;
use vstd::prelude::*;

verus! {

/// The number by which `Ordering` is represented: -1, 0 or 1.
pub open spec fn ordering_code(o: Ordering) -> int {
    match o {
        Ordering::Less => -1,
        Ordering::Equal => 0,
        Ordering::Greater => 1,
    }
}

/// How `v` compares with zero.
pub open spec fn sign_ordering(v: int) -> Ordering {
    if v < 0 {
        Ordering::Less
    } else if v == 0 {
        Ordering::Equal
    } else {
        Ordering::Greater
    }
}

/// A Java `int` as a mathematical integer.
pub open spec fn java_int_value(v: i32) -> int {
    v as int
}

/// The signed byte that represents `o`, which is what Java receives for it.
pub fn ordering_to_java_byte(o: Ordering) -> (r: i8)
    ensures
        r == ordering_code(o),
{
    match o {
        Ordering::Less => -1,
        Ordering::Equal => 0,
        Ordering::Greater => 1,
    }
}

/// The `Ordering` of a Java comparison result: how `v` compares with zero.
pub fn ordering_from_java_int(v: i32) -> (r: Ordering)
    ensures
        r == sign_ordering(java_int_value(v)),
{
    if v < 0 {
        Ordering::Less
    } else if v == 0 {
        Ordering::Equal
    } else {
        Ordering::Greater
    }
}

/// Sending an `Ordering` to Java and reading Java's answer back gives the
/// same `Ordering`.
pub proof fn lemma_ordering_round_trip(o: Ordering)
    ensures
        sign_ordering(ordering_code(o)) == o,
{
}

/// Every Java comparison result is read as the `Ordering` whose code has
/// its sign, so reading it and sending it back keeps the sign.
pub proof fn lemma_java_int_keeps_sign(v: int)
    ensures
        ordering_code(sign_ordering(v)) < 0 <==> v < 0,
        ordering_code(sign_ordering(v)) == 0 <==> v == 0,
        ordering_code(sign_ordering(v)) > 0 <==> v > 0,
{
}

} // verus!
