//! Rust-side values of a few Java types: strings, byte arrays and the two
//! pair classes of the bridge.
use vstd::prelude::*;
use vstd::std_specs::convert::{FromSpec, FromSpecImpl};

verus! {

/// A `java.lang.String`, held as its Rust text.
pub struct JavaString(String);

impl View for JavaString {
    type V = Seq<char>;

    closed spec fn view(&self) -> Seq<char> {
        self.0@
    }
}

impl JavaString {
    /// The text, moved out.
    pub fn into_inner(self) -> (r: String)
        ensures
            r@ == self@,
    {
        self.0
    }
}

impl core::ops::Deref for JavaString {
    type Target = String;

    fn deref(&self) -> (r: &String)
        ensures
            r@ == self@,
    {
        &self.0
    }
}

impl From<String> for JavaString {
    fn from(s: String) -> (r: Self)
        ensures
            r@ == s@,
    {
        JavaString(s)
    }
}

impl FromSpecImpl<String> for JavaString {
    open spec fn obeys_from_spec() -> bool {
        true
    }

    closed spec fn from_spec(v: String) -> Self {
        JavaString(v)
    }
}


/// A Java `byte[]`, held as the signed bytes of Java.
pub struct JavaBytes(Vec<i8>);

impl View for JavaBytes {
    type V = Seq<i8>;

    closed spec fn view(&self) -> Seq<i8> {
        self.0@
    }
}

impl JavaBytes {
    /// The bytes, moved out.
    pub fn into_inner(self) -> (r: Vec<i8>)
        ensures
            r@ == self@,
    {
        self.0
    }
}

impl core::ops::Deref for JavaBytes {
    type Target = Vec<i8>;

    fn deref(&self) -> (r: &Vec<i8>)
        ensures
            r@ == self@,
    {
        &self.0
    }
}

impl From<Vec<i8>> for JavaBytes {
    fn from(v: Vec<i8>) -> (r: Self)
        ensures
            r@ == v@,
    {
        JavaBytes(v)
    }
}

impl FromSpecImpl<Vec<i8>> for JavaBytes {
    open spec fn obeys_from_spec() -> bool {
        true
    }

    closed spec fn from_spec(v: Vec<i8>) -> Self {
        JavaBytes(v)
    }
}


/// A value of the bridge's own Java pair class (`io.github.worksoup.LumiaPair`).
pub struct Pair<F, S>((F, S));

impl<F, S> View for Pair<F, S> {
    type V = (F, S);

    closed spec fn view(&self) -> (F, S) {
        self.0
    }
}

impl<F, S> Pair<F, S> {
    /// Makes the pair `(f, s)`.
    pub fn new(f: F, s: S) -> (r: Pair<F, S>)
        ensures
            r@ == (f, s),
    {
        Pair((f, s))
    }

    /// The two components, moved out.
    pub fn into_inner(self) -> (r: (F, S))
        ensures
            r == self@,
    {
        self.0
    }
}

impl<F, S> core::ops::Deref for Pair<F, S> {
    type Target = (F, S);

    fn deref(&self) -> (r: &(F, S))
        ensures
            *r == self@,
    {
        &self.0
    }
}

impl<F, S> From<(F, S)> for Pair<F, S> {
    fn from(v: (F, S)) -> (r: Self)
        ensures
            r@ == v,
    {
        Pair(v)
    }
}

impl<F, S> FromSpecImpl<(F, S)> for Pair<F, S> {
    open spec fn obeys_from_spec() -> bool {
        true
    }

    closed spec fn from_spec(v: (F, S)) -> Self {
        Pair(v)
    }
}

/// A value of Kotlin's `kotlin.Pair`.
pub struct KotlinPair<F, S>((F, S));

impl<F, S> View for KotlinPair<F, S> {
    type V = (F, S);

    closed spec fn view(&self) -> (F, S) {
        self.0
    }
}

impl<F, S> KotlinPair<F, S> {
    /// Makes the pair `(f, s)`.
    pub fn new(f: F, s: S) -> (r: KotlinPair<F, S>)
        ensures
            r@ == (f, s),
    {
        KotlinPair((f, s))
    }

    /// The two components, moved out.
    pub fn into_inner(self) -> (r: (F, S))
        ensures
            r == self@,
    {
        self.0
    }
}

impl<F, S> core::ops::Deref for KotlinPair<F, S> {
    type Target = (F, S);

    fn deref(&self) -> (r: &(F, S))
        ensures
            *r == self@,
    {
        &self.0
    }
}

impl<F, S> From<(F, S)> for KotlinPair<F, S> {
    fn from(v: (F, S)) -> (r: Self)
        ensures
            r@ == v,
    {
        KotlinPair(v)
    }
}

impl<F, S> FromSpecImpl<(F, S)> for KotlinPair<F, S> {
    open spec fn obeys_from_spec() -> bool {
        true
    }

    closed spec fn from_spec(v: (F, S)) -> Self {
        KotlinPair(v)
    }
}

/// Converting a text into a [`JavaString`] and taking it out again gives
/// the text back.
pub proof fn lemma_java_string_round_trip(v: String)
    ensures
        <JavaString as FromSpec<String>>::from_spec(v)@ == v@,
{
}

/// Converting bytes into [`JavaBytes`] and taking them out again gives the
/// bytes back.
pub proof fn lemma_java_bytes_round_trip(v: Vec<i8>)
    ensures
        <JavaBytes as FromSpec<Vec<i8>>>::from_spec(v)@ == v@,
{
}

/// Converting a tuple into a [`Pair`] and taking it out again gives the
/// tuple back.
pub proof fn lemma_pair_round_trip<F, S>(v: (F, S))
    ensures
        <Pair<F, S> as FromSpec<(F, S)>>::from_spec(v)@ == v,
{
}

/// Converting a tuple into a [`KotlinPair`] and taking it out again gives
/// the tuple back.
pub proof fn lemma_kotlin_pair_round_trip<F, S>(v: (F, S))
    ensures
        <KotlinPair<F, S> as FromSpec<(F, S)>>::from_spec(v)@ == v,
{
}

} // verus!
