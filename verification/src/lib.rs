//! Derives release tags from a crate's commit history.
//!
//! The library walks the sequence of commits that touched the manifest,
//! newest first, groups consecutive commits that declare the same package
//! version into eras, and for each era selects the chronologically earliest
//! commit as the version's introduction point. A tagging step then decides,
//! against the tags that already exist, whether an annotated tag must be
//! created there or is already in place.

pub mod error;
pub mod hash;
pub mod manifest;
pub mod tagger;
pub mod version;
pub mod walker;
