//! The declared package version, or the unset initial state.

use vstd::prelude::*;
use vstd::string::StringExecFns;

verus! {

/// Crate semver struct with the `v1.25.8` format.
///
/// Holds either the canonical display form of a declared version — the raw
/// version text with a `v` marker prepended — or nothing at all. The unset
/// state is only meant as the initial accumulator of the era walk, before
/// the first commit has been examined; it must never reach the tagging step.
/// The view of a `Version` is `Some` of the canonical text, or `None` when
/// unset.
#[derive(Debug)]
pub struct Version(Option<String>);

impl View for Version {
    type V = Option<Seq<char>>;

    closed spec fn view(&self) -> Option<Seq<char>> {
        match self.0 {
            Some(ref s) => Some(s@),
            None => None,
        }
    }
}

impl Version {
    /// Takes a string and prepends 'v' to it for formatting.
    pub fn from_string(s: String) -> (v: Self)
        ensures
            v@ == Some(seq!['v'] + s@),
    {
        let mut text = String::from_str("v");
        proof {
            reveal_strlit("v");
            assert(text@ =~= seq!['v']);
        }
        text.append(s.as_str());
        Version(Some(text))
    }

    /// Checks if the version is of the `None` variant. Simply calls
    /// `Option::is_none`.
    pub fn is_unset(&self) -> (r: bool)
        ensures
            r == (self@ is None),
    {
        self.0.is_none()
    }

    /// The canonical display form, which doubles as the tag name.
    ///
    /// The unset state has no display form: asking for one is a programming
    /// error, ruled out by the precondition.
    pub fn tag_name(&self) -> (r: String)
        requires
            self@ is Some,
        ensures
            r@ == self@->Some_0,
    {
        match &self.0 {
            Some(s) => s.clone(),
            None => {
                proof {
                    assert(false);
                }
                String::new()
            },
        }
    }
}

impl Clone for Version {
    /// The clone carries the same declared text, or is likewise unset.
    fn clone(&self) -> (v: Self)
        ensures
            v@ == self@,
    {
        match &self.0 {
            Some(s) => Version(Some(s.clone())),
            None => Version(None),
        }
    }
}

impl Default for Version {
    /// The unset state, the accumulator before any commit has been seen.
    fn default() -> (v: Self)
        ensures
            v@ is None,
    {
        Version(None)
    }
}

impl PartialEq for Version {
    /// Two versions are equal when both are unset or both declare the same
    /// text.
    fn eq(&self, other: &Self) -> (r: bool) {
        match (&self.0, &other.0) {
            (Some(a), Some(b)) => *a == *b,
            (None, None) => true,
            _ => false,
        }
    }
}

impl vstd::std_specs::cmp::PartialEqSpecImpl for Version {
    open spec fn obeys_eq_spec() -> bool {
        true
    }

    open spec fn eq_spec(&self, other: &Self) -> bool {
        self@ == other@
    }
}

} // verus!
