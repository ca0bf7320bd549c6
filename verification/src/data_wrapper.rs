//! A Rust type can stand for several Java types (a primitive or its boxed
//! class, a tuple or one of several `Pair` classes). [`DataWrapper`] tags a
//! value with a marker type so that each of these correspondences can be
//! told apart.
use core::marker::PhantomData;
use vstd::prelude::*;

verus! {

/// Marker that fills the second type parameter of [`DataWrapper`] and
/// stands for the default correspondence.
#[derive(Default)]
pub struct DefaultCast;

/// A name of a Java type, carried as a value.
pub struct TypeName {
    name: &'static str,
}

impl TypeName {
    /// The name that this value carries.
    pub closed spec fn spec_name(self) -> Seq<char> {
        self.name@
    }

    /// Makes a type name.
    pub fn new(name: &'static str) -> (r: TypeName)
        ensures
            r.spec_name() == name@,
    {
        TypeName { name }
    }

    /// Gives back the name of the Java type.
    pub fn get_type_name(self) -> (r: &'static str)
        ensures
            r@ == self.spec_name(),
    {
        self.name
    }
}

/// A value of type `T` tagged with the marker type `M`.
pub struct DataWrapper<T, M = DefaultCast> where M: Default {
    data: T,
    _label: PhantomData<M>,
}

impl<T, M: Default> View for DataWrapper<T, M> {
    type V = T;

    closed spec fn view(&self) -> T {
        self.data
    }
}

impl<T, M: Default> DataWrapper<T, M> {
    /// A value of the marker type, made by its `Default`.
    pub fn get_marker() -> (r: M)
        ensures
            call_ensures(M::default, (), r),
    {
        M::default()
    }

    /// The wrapped value, borrowed.
    pub fn get_ref(&self) -> (r: &T)
        ensures
            *r == self@,
    {
        &self.data
    }

    /// The wrapped value, moved out.
    pub fn into_inner(self) -> (r: T)
        ensures
            r == self@,
    {
        self.data
    }
}

impl<T> core::ops::Deref for DataWrapper<T, DefaultCast> {
    type Target = T;

    fn deref(&self) -> (r: &T)
        ensures
            *r == self@,
    {
        &self.data
    }
}

impl<T, M: Default> From<T> for DataWrapper<T, M> {
    fn from(data: T) -> (r: Self)
        ensures
            r@ == data,
    {
        DataWrapper { data, _label: PhantomData }
    }
}

impl<T, M: Default> vstd::std_specs::convert::FromSpecImpl<T> for DataWrapper<T, M> {
    open spec fn obeys_from_spec() -> bool {
        true
    }

    closed spec fn from_spec(v: T) -> Self {
        DataWrapper { data: v, _label: PhantomData }
    }
}


/// Wrapping a value and taking it out again gives the value back.
pub proof fn lemma_wrap_then_unwrap<T, M: Default>(v: T)
    ensures
        <DataWrapper<T, M> as vstd::std_specs::convert::FromSpec<T>>::from_spec(v)@ == v,
{
}

impl<P1, P2, M: Default> DataWrapper<(P1, P2), M> {
    /// The wrapped pair, moved out.
    pub fn get_pair(self) -> (r: (P1, P2))
        ensures
            r == self@,
    {
        self.data
    }
}

} // verus!
