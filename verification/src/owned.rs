//! The owned wrapper: string-like storage compared, ordered and hashed
//! without regard to ASCII letter case, while the stored characters keep
//! their original case.

use core::cmp::Ordering;
use vstd::prelude::*;
use vstd::std_specs::cmp::PartialEqSpec;
use vstd::std_specs::cmp::PartialOrdSpec;

use crate::fold::{caseless_cmp, caseless_equal, fold_chars, str_caseless_cmp, str_caseless_eq};
use crate::view::AsciiCaselessStr;

verus! {

/// String-like storage: anything that can expose its characters as a
/// string slice.
pub trait StrStorage: Sized {
    /// The stored character sequence.
    spec fn str_view(&self) -> Seq<char>;

    /// Borrows the stored characters as a string slice.
    fn str_ref(&self) -> (r: &str)
        ensures
            r@ == self.str_view(),
    ;
}

impl StrStorage for String {
    open spec fn str_view(&self) -> Seq<char> {
        self@
    }

    fn str_ref(&self) -> (r: &str) {
        self.as_str()
    }
}

impl<'a> StrStorage for &'a str {
    open spec fn str_view(&self) -> Seq<char> {
        (*self)@
    }

    fn str_ref(&self) -> (r: &str) {
        *self
    }
}

/// Owned string-like storage under case-insensitive identity: equality,
/// ordering and hashing fold ASCII letters to lowercase first, while the
/// stored value itself is never altered.
#[derive(Debug, Clone, Copy)]
pub struct AsciiCaselessString<T = String> {
    inner: T,
}

impl<T> AsciiCaselessString<T> {
    /// The stored value, as specifications see it.
    pub closed spec fn spec_inner(&self) -> T {
        self.inner
    }

    /// The wrapper holding `inner`, as specifications see it.
    pub closed spec fn spec_wrap(inner: T) -> AsciiCaselessString<T> {
        AsciiCaselessString { inner }
    }
}

/// Wrapping stores exactly the given value: `spec_wrap` and `spec_inner`
/// are mutually inverse.
pub proof fn lemma_wrap_inner<T>(w: AsciiCaselessString<T>, inner: T)
    ensures
        AsciiCaselessString::spec_wrap(inner).spec_inner() == inner,
        AsciiCaselessString::spec_wrap(w.spec_inner()) == w,
{
}

impl<T: StrStorage> View for AsciiCaselessString<T> {
    type V = Seq<char>;

    open spec fn view(&self) -> Seq<char> {
        self.spec_inner().str_view()
    }
}

impl<T: StrStorage> AsciiCaselessString<T> {
    /// Wraps `inner` by value; the stored value, and so its case, is kept
    /// exactly.
    pub fn new(inner: T) -> (r: Self)
        ensures
            r == Self::spec_wrap(inner),
            r.spec_inner() == inner,
    {
        AsciiCaselessString { inner }
    }

    /// The stored characters in their original case.
    pub fn as_str(&self) -> (r: &str)
        ensures
            r@ == self@,
    {
        self.inner.str_ref()
    }

    /// Borrows the backing storage, original case intact.
    pub fn as_inner_ref(&self) -> (r: &T)
        ensures
            *r == self.spec_inner(),
    {
        &self.inner
    }

    /// Mutably borrows the backing storage. Whatever the caller writes
    /// through the borrow is what later comparisons and hashes observe:
    /// no comparison state is cached.
    pub fn as_inner_mut(&mut self) -> (r: &mut T)
        ensures
            *r == old(self).spec_inner(),
            final(self).spec_inner() == *final(r),
    {
        &mut self.inner
    }

    /// Consumes the wrapper and returns the storage unchanged, original
    /// case preserved: unwrapping what `new` wrapped gives back exactly
    /// the wrapped value.
    pub fn into_inner(self) -> (r: T)
        ensures
            r == self.spec_inner(),
    {
        self.inner
    }

    /// The borrow relation: a view over this wrapper's own storage, with
    /// no copy, which compares and hashes exactly as the wrapper does.
    pub fn as_caseless_str(&self) -> (r: AsciiCaselessStr<'_>)
        ensures
            r@ == self@,
    {
        AsciiCaselessStr::new(self.inner.str_ref())
    }
}

impl<T: StrStorage> PartialEq for AsciiCaselessString<T> {
    fn eq(&self, other: &Self) -> (r: bool) {
        str_caseless_eq(self.inner.str_ref(), other.inner.str_ref())
    }
}

impl<T: StrStorage> Eq for AsciiCaselessString<T> {

}

impl<T: StrStorage> vstd::std_specs::cmp::PartialEqSpecImpl for AsciiCaselessString<T> {
    open spec fn obeys_eq_spec() -> bool {
        true
    }

    open spec fn eq_spec(&self, other: &Self) -> bool {
        caseless_equal(self@, other@)
    }
}

impl<T: StrStorage> PartialOrd for AsciiCaselessString<T> {
    fn partial_cmp(&self, other: &Self) -> (r: Option<Ordering>) {
        Some(str_caseless_cmp(self.inner.str_ref(), other.inner.str_ref()))
    }
}

impl<T: StrStorage> vstd::std_specs::cmp::PartialOrdSpecImpl for AsciiCaselessString<T> {
    open spec fn obeys_partial_cmp_spec() -> bool {
        true
    }

    open spec fn partial_cmp_spec(&self, other: &Self) -> Option<Ordering> {
        Some(caseless_cmp(self@, other@))
    }
}

impl<T: StrStorage> core::hash::Hash for AsciiCaselessString<T> {
    /// Relies on `<Vec<char> as core::hash::Hash>::hash`: the writes it
    /// makes to the hasher are a function of the vector's characters alone,
    /// so values whose folded character sequences are equal feed any hasher
    /// identically, whichever wrapper type computed them.
    #[verifier::external_body]
    fn hash<H: core::hash::Hasher>(&self, state: &mut H) {
        core::hash::Hash::hash(&fold_chars(self.inner.str_ref()), state);
    }
}

/// Law: the owned wrapper and the borrowed view are interchangeable as
/// lookup keys. Over the same character content their equality relations
/// and their orderings are the very same relation, the case-fold comparator
/// of [`crate::fold`]; in particular an owned wrapper and the view it
/// borrows out through [`AsciiCaselessString::as_caseless_str`] satisfy the
/// premises with `o1 == o2`.
pub proof fn lemma_cross_type_consistency<T: StrStorage>(
    o1: AsciiCaselessString<T>,
    o2: AsciiCaselessString<T>,
    v1: AsciiCaselessStr,
    v2: AsciiCaselessStr,
)
    requires
        o1@ == v1@,
        o2@ == v2@,
    ensures
        o1.eq_spec(&o2) == v1.eq_spec(&v2),
        o1.partial_cmp_spec(&o2) == v1.partial_cmp_spec(&v2),
{
}

/// Law: the wrappers are totally ordered. Comparison never fails, it is
/// `Equal` exactly where case-insensitive equality holds, it is
/// antisymmetric, and it is transitive.
pub proof fn lemma_wrapper_total_order<T: StrStorage>(
    a: AsciiCaselessString<T>,
    b: AsciiCaselessString<T>,
    c: AsciiCaselessString<T>,
)
    ensures
        a.partial_cmp_spec(&b) is Some,
        a.partial_cmp_spec(&b) == Some(Ordering::Equal) <==> a.eq_spec(&b),
        a.partial_cmp_spec(&b) == Some(Ordering::Less) <==> b.partial_cmp_spec(&a) == Some(
            Ordering::Greater,
        ),
        a.partial_cmp_spec(&b) == Some(Ordering::Less) && b.partial_cmp_spec(&c) == Some(
            Ordering::Less,
        ) ==> a.partial_cmp_spec(&c) == Some(Ordering::Less),
{
    crate::fold::lemma_caseless_cmp_equal_iff(a@, b@);
    crate::fold::lemma_caseless_cmp_antisymmetric(a@, b@);
    if caseless_cmp(a@, b@) == Ordering::Less && caseless_cmp(b@, c@) == Ordering::Less {
        crate::fold::lemma_caseless_cmp_transitive(a@, b@, c@);
    }
}

/// Law: no comparison state is cached beside the storage. Two wrappers
/// whose backing storage currently holds the same value, for instance one
/// freshly built and one whose storage was overwritten through
/// [`AsciiCaselessString::as_inner_mut`], are indistinguishable to
/// equality and ordering against any third wrapper.
pub proof fn lemma_mutation_visibility<T: StrStorage>(
    w1: AsciiCaselessString<T>,
    w2: AsciiCaselessString<T>,
    o: AsciiCaselessString<T>,
)
    requires
        w1.spec_inner() == w2.spec_inner(),
    ensures
        w1.eq_spec(&o) == w2.eq_spec(&o),
        w1.partial_cmp_spec(&o) == w2.partial_cmp_spec(&o),
{
}

impl<T: StrStorage> From<T> for AsciiCaselessString<T> {
    fn from(inner: T) -> (r: Self) {
        Self::new(inner)
    }
}

impl<T: StrStorage> vstd::std_specs::convert::FromSpecImpl<T> for AsciiCaselessString<T> {
    open spec fn obeys_from_spec() -> bool {
        true
    }

    open spec fn from_spec(inner: T) -> Self {
        Self::spec_wrap(inner)
    }
}

} // verus!
