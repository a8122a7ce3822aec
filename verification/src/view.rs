//! The borrowed view: a zero-copy case-insensitive key over someone else's
//! string slice. It holds the given reference itself and nothing else, so
//! constructing one neither copies nor allocates, and it applies exactly
//! the comparator of [`crate::fold`] that the owned wrapper applies.

use core::cmp::Ordering;
use vstd::prelude::*;

use crate::fold::{caseless_cmp, caseless_equal, fold_chars, str_caseless_cmp, str_caseless_eq};

verus! {

/// A borrowed string slice under case-insensitive identity: equality,
/// ordering and hashing fold ASCII letters to lowercase first; the
/// referenced characters are never altered.
#[derive(Debug, Clone, Copy)]
pub struct AsciiCaselessStr<'a> {
    inner: &'a str,
}

impl<'a> AsciiCaselessStr<'a> {
    /// The referenced slice, as specifications see it.
    pub closed spec fn spec_inner(&self) -> &'a str {
        self.inner
    }

    /// The view over `inner`, as specifications see it.
    pub closed spec fn spec_wrap(inner: &'a str) -> AsciiCaselessStr<'a> {
        AsciiCaselessStr { inner }
    }
}

/// Wrapping references exactly the given slice: `spec_wrap` and
/// `spec_inner` are mutually inverse.
pub proof fn lemma_view_wrap_inner<'a>(v: AsciiCaselessStr<'a>, inner: &'a str)
    ensures
        AsciiCaselessStr::spec_wrap(inner).spec_inner() == inner,
        AsciiCaselessStr::spec_wrap(v.spec_inner()) == v,
{
}

impl<'a> View for AsciiCaselessStr<'a> {
    type V = Seq<char>;

    open spec fn view(&self) -> Seq<char> {
        self.spec_inner()@
    }
}

impl<'a> AsciiCaselessStr<'a> {
    /// Wraps the given slice reference with no copy: the view holds that
    /// very reference.
    pub fn new(inner: &'a str) -> (r: Self)
        ensures
            r == Self::spec_wrap(inner),
            r.spec_inner() == inner,
    {
        AsciiCaselessStr { inner }
    }

    /// The referenced characters in their original case: the very slice
    /// the view was built over.
    pub fn as_str(&self) -> (r: &'a str)
        ensures
            r == self.spec_inner(),
            r@ == self@,
    {
        self.inner
    }
}

impl<'a> PartialEq for AsciiCaselessStr<'a> {
    fn eq(&self, other: &Self) -> (r: bool) {
        str_caseless_eq(self.inner, other.inner)
    }
}

impl<'a> Eq for AsciiCaselessStr<'a> {

}

impl<'a> vstd::std_specs::cmp::PartialEqSpecImpl for AsciiCaselessStr<'a> {
    open spec fn obeys_eq_spec() -> bool {
        true
    }

    open spec fn eq_spec(&self, other: &Self) -> bool {
        caseless_equal(self@, other@)
    }
}

impl<'a> PartialOrd for AsciiCaselessStr<'a> {
    fn partial_cmp(&self, other: &Self) -> (r: Option<Ordering>) {
        Some(str_caseless_cmp(self.inner, other.inner))
    }
}

impl<'a> vstd::std_specs::cmp::PartialOrdSpecImpl for AsciiCaselessStr<'a> {
    open spec fn obeys_partial_cmp_spec() -> bool {
        true
    }

    open spec fn partial_cmp_spec(&self, other: &Self) -> Option<Ordering> {
        Some(caseless_cmp(self@, other@))
    }
}

impl<'a> core::hash::Hash for AsciiCaselessStr<'a> {
    /// Relies on `<Vec<char> as core::hash::Hash>::hash`: the writes it
    /// makes to the hasher are a function of the vector's characters alone,
    /// so values whose folded character sequences are equal feed any hasher
    /// identically, whichever wrapper type computed them.
    #[verifier::external_body]
    fn hash<H: core::hash::Hasher>(&self, state: &mut H) {
        core::hash::Hash::hash(&fold_chars(self.inner), state);
    }
}

impl<'a> From<&'a str> for AsciiCaselessStr<'a> {
    fn from(inner: &'a str) -> (r: Self) {
        Self::new(inner)
    }
}

impl<'a> vstd::std_specs::convert::FromSpecImpl<&'a str> for AsciiCaselessStr<'a> {
    open spec fn obeys_from_spec() -> bool {
        true
    }

    open spec fn from_spec(inner: &'a str) -> Self {
        Self::spec_wrap(inner)
    }
}

} // verus!
