//! A wrapper around a commit identifier.

use std::borrow::Cow;
use vstd::prelude::*;

verus! {

/// A git commit hash wrapper. Not to be confused with [`std::hash::Hash`].
///
/// The identifier text is opaque to the rest of the library: commits are
/// only carried around and compared for equality. The view of a `Hash` is
/// the sequence of characters of its identifier.
#[derive(Debug)]
pub struct Hash<'a>(Cow<'a, str>);

impl<'a> View for Hash<'a> {
    type V = Seq<char>;

    closed spec fn view(&self) -> Seq<char> {
        self.0@
    }
}

impl<'a> Hash<'a> {
    /// Takes an owned string and simply wraps it with `Cow::Owned`.
    pub fn from_string(s: String) -> (h: Self)
        ensures
            h@ == s@,
    {
        Hash(Cow::Owned(s))
    }

    /// Borrows `s` for as long as `Self` lives.
    pub fn from_borrow(s: Cow<'a, str>) -> (h: Self)
        ensures
            h@ == s@,
    {
        Hash(s)
    }

    /// The identifier text itself.
    pub fn as_str(&self) -> (r: &str)
        ensures
            r@ == self@,
    {
        match &self.0 {
            Cow::Borrowed(b) => b,
            Cow::Owned(o) => o.as_str(),
        }
    }

    /// Whether this commit identifier reads exactly as `s`.
    pub fn eq_str(&self, s: &str) -> (r: bool)
        ensures
            r == (self@ == s@),
    {
        let own: String = self.as_str().to_owned();
        let other: String = s.to_owned();
        own == other
    }

    /// Whether two commit identifiers are the same.
    pub fn same_commit(&self, other: &Hash<'_>) -> (r: bool)
        ensures
            r == (self@ == other@),
    {
        self.eq_str(other.as_str())
    }
}

impl<'a> Clone for Hash<'a> {
    /// The clone carries the same identifier text.
    fn clone(&self) -> (h: Self)
        ensures
            h@ == self@,
    {
        match &self.0 {
            Cow::Borrowed(b) => Hash(Cow::Borrowed(*b)),
            Cow::Owned(o) => Hash(Cow::Owned(o.clone())),
        }
    }
}

} // verus!
