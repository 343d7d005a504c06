//! Reading the declared version out of a manifest snapshot.

use crate::error::Error;
use crate::version::Version;
use vstd::prelude::*;

verus! {

/// The `package.version` string field of the TOML document `text`, or
/// `None` when `text` is not a TOML document carrying that field.
///
/// What exactly parses as TOML is the parser crate's business; the library
/// only relies on the result being a function of the text alone.
pub uninterp spec fn manifest_version_of(text: Seq<char>) -> Option<Seq<char>>;

/// Relies on `toml::from_str::<toml::Value>`, `toml::Value::get` and
/// `toml::Value::as_str`: decodes `text` as a TOML document and extracts
/// its `package.version` string field, all of which depends on the text
/// alone.
#[verifier::external_body]
fn extract_package_version(text: &str) -> (r: Option<String>)
    ensures
        r.deep_view() == manifest_version_of(text@),
{
    let doc: toml::Value = toml::from_str(text).ok()?;
    let version = doc.get("package")?.get("version")?.as_str()?;
    Some(version.to_owned())
}

/// Reconstructs the version a manifest snapshot declared.
///
/// Succeeds exactly when the snapshot is a TOML document with a string
/// `package.version` field, wrapping that field as a declared [`Version`];
/// an unreadable or versionless snapshot makes the whole derivation
/// untrustworthy, so it is reported as [`Error::ManifestMalformed`].
pub fn version_at(text: &str) -> (r: Result<Version, Error>)
    ensures
        match r {
            Ok(v) => manifest_version_of(text@) is Some
                && v@ == Some(seq!['v'] + manifest_version_of(text@)->Some_0),
            Err(e) => manifest_version_of(text@) is None && e == Error::ManifestMalformed,
        },
{
    match extract_package_version(text) {
        Some(raw) => Ok(Version::from_string(raw)),
        None => Err(Error::ManifestMalformed),
    }
}

} // verus!
