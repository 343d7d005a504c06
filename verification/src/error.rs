//! The failures that abort a tagging run.

use vstd::prelude::*;
use vstd::string::StringExecFns;

verus! {

/// Everything that can go wrong while deriving and writing tags.
///
/// Each failure is fatal for the remaining run: nothing is retried and
/// nothing is rolled back, so tags created before the failure remain.
#[derive(Debug, Clone, Copy, PartialEq, Eq, Structural)]
pub enum Error {
    /// The qualifying commits cannot be enumerated at all.
    HistoryUnavailable,
    /// The manifest did not exist at a visited commit.
    ManifestUnavailable,
    /// A historical manifest snapshot cannot be parsed, or lacks the
    /// `package.version` field.
    ManifestMalformed,
    /// The tag-name-to-commit lookup itself errored (distinct from a tag
    /// that merely does not exist, which is a normal outcome).
    TagResolutionFailed,
    /// The tag create operation reported non-success.
    TagCreationFailed,
}

impl Error {
    /// The diagnostic line shown for this failure.
    pub fn describe(&self) -> (r: String)
        ensures
            *self == Error::HistoryUnavailable ==> r@ == "cannot query the commit history"@,
            *self == Error::ManifestUnavailable ==> r@ == "manifest missing at a visited commit"@,
            *self == Error::ManifestMalformed ==> r@ == "manifest cannot be parsed at a visited commit"@,
            *self == Error::TagResolutionFailed ==> r@ == "cannot resolve an existing tag"@,
            *self == Error::TagCreationFailed ==> r@ == "git tag failed"@,
    {
        match self {
            Error::HistoryUnavailable => String::from_str("cannot query the commit history"),
            Error::ManifestUnavailable => String::from_str("manifest missing at a visited commit"),
            Error::ManifestMalformed => String::from_str("manifest cannot be parsed at a visited commit"),
            Error::TagResolutionFailed => String::from_str("cannot resolve an existing tag"),
            Error::TagCreationFailed => String::from_str("git tag failed"),
        }
    }
}

} // verus!
