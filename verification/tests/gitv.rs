use std::borrow::Cow;

use gitv::error::Error;
use gitv::manifest::version_at;
use gitv::tagger::{
    already_tagged, apply_all, create_outcome, report_line, tag_message, TagOutcome, TagStore,
};
use gitv::version::Version;
use gitv::walker::{walk, Event, Walker};

fn commit(id: &str) -> gitv::hash::Hash<'static> {
    gitv::hash::Hash::from_string(id.to_string())
}

fn declared(raw: &str) -> Version {
    Version::from_string(raw.to_string())
}

#[test]
fn version_prepends_marker() {
    let v = declared("1.25.8");
    assert!(!v.is_unset());
    assert_eq!(v.tag_name(), "v1.25.8");
}

#[test]
fn version_default_is_unset() {
    let v = Version::default();
    assert!(v.is_unset());
}

#[test]
fn version_equality_is_by_text() {
    assert!(declared("1.0.0") == declared("1.0.0"));
    assert!(declared("1.0.0") != declared("1.0.1"));
    assert!(Version::default() == Version::default());
    assert!(declared("1.0.0") != Version::default());
}

#[test]
fn version_clone_preserves_text() {
    let v = declared("0.3.2");
    let w = v.clone();
    assert!(v == w);
    assert_eq!(w.tag_name(), "v0.3.2");
}

#[test]
fn hash_wraps_owned_and_borrowed_text() {
    let owned = gitv::hash::Hash::from_string("9d0fae2b".to_string());
    assert_eq!(owned.as_str(), "9d0fae2b");
    let borrowed = gitv::hash::Hash::from_borrow(Cow::Borrowed("f36d7da9"));
    assert_eq!(borrowed.as_str(), "f36d7da9");
    let from_owned_cow = gitv::hash::Hash::from_borrow(Cow::Owned("47f8945c".to_string()));
    assert_eq!(from_owned_cow.as_str(), "47f8945c");
}

#[test]
fn hash_equality() {
    let h = commit("bcca18f8");
    assert!(h.eq_str("bcca18f8"));
    assert!(!h.eq_str("2c58087a"));
    assert!(h.same_commit(&commit("bcca18f8")));
    assert!(!h.same_commit(&commit("2c58087a")));
    assert!(h.clone().same_commit(&h));
}

#[test]
fn manifest_with_version_parses() {
    let text = "[package]\nname = \"demo\"\nversion = \"1.2.0\"\n";
    let v = version_at(text).expect("a declared version");
    assert_eq!(v.tag_name(), "v1.2.0");
}

#[test]
fn manifest_without_version_is_malformed() {
    let text = "[package]\nname = \"demo\"\n";
    assert_eq!(version_at(text).unwrap_err(), Error::ManifestMalformed);
}

#[test]
fn manifest_with_unparsable_text_is_malformed() {
    assert_eq!(version_at("this = = is not toml").unwrap_err(), Error::ManifestMalformed);
}

#[test]
fn manifest_with_non_string_version_is_malformed() {
    let text = "[package]\nname = \"demo\"\nversion = 5\n";
    assert_eq!(version_at(text).unwrap_err(), Error::ManifestMalformed);
}

#[test]
fn empty_history_yields_no_events() {
    let commits: Vec<gitv::hash::Hash> = Vec::new();
    let versions: Vec<Version> = Vec::new();
    let events = walk(&commits, &versions);
    assert!(events.is_empty());
}

#[test]
fn single_commit_yields_one_event() {
    let commits = vec![commit("c1")];
    let versions = vec![declared("0.1.0")];
    let events = walk(&commits, &versions);
    assert_eq!(events.len(), 1);
    assert_eq!(events[0].version.tag_name(), "v0.1.0");
    assert_eq!(events[0].commit.as_str(), "c1");
}

#[test]
fn three_eras_close_on_their_oldest_commits() {
    // Newest first: c5 and c4 declare 1.2.0, c3 and c2 declare 1.1.0,
    // c1 declares 1.0.0.
    let commits = vec![commit("c5"), commit("c4"), commit("c3"), commit("c2"), commit("c1")];
    let versions = vec![
        declared("1.2.0"),
        declared("1.2.0"),
        declared("1.1.0"),
        declared("1.1.0"),
        declared("1.0.0"),
    ];
    let events = walk(&commits, &versions);
    assert_eq!(events.len(), 3);
    assert_eq!(events[0].version.tag_name(), "v1.2.0");
    assert_eq!(events[0].commit.as_str(), "c4");
    assert_eq!(events[1].version.tag_name(), "v1.1.0");
    assert_eq!(events[1].commit.as_str(), "c2");
    assert_eq!(events[2].version.tag_name(), "v1.0.0");
    assert_eq!(events[2].commit.as_str(), "c1");
}

#[test]
fn reverted_version_makes_two_independent_eras() {
    // Oldest to newest the versions run A, A, B, B, B, A; the walker sees
    // them newest first.
    let commits = vec![
        commit("c5"),
        commit("c4"),
        commit("c3"),
        commit("c2"),
        commit("c1"),
        commit("c0"),
    ];
    let versions = vec![
        declared("1.0.0"),
        declared("2.0.0"),
        declared("2.0.0"),
        declared("2.0.0"),
        declared("1.0.0"),
        declared("1.0.0"),
    ];
    let events = walk(&commits, &versions);
    assert_eq!(events.len(), 3);
    assert_eq!(events[0].version.tag_name(), "v1.0.0");
    assert_eq!(events[0].commit.as_str(), "c5");
    assert_eq!(events[1].version.tag_name(), "v2.0.0");
    assert_eq!(events[1].commit.as_str(), "c2");
    assert_eq!(events[2].version.tag_name(), "v1.0.0");
    assert_eq!(events[2].commit.as_str(), "c0");
    assert_ne!(events[0].commit.as_str(), events[2].commit.as_str());
}

#[test]
fn walker_steps_match_the_one_pass_walk() {
    let mut w = Walker::new();
    assert!(w.step(declared("1.1.0"), commit("c3")).is_none());
    assert!(w.step(declared("1.1.0"), commit("c2")).is_none());
    let closed = w.step(declared("1.0.0"), commit("c1")).expect("an era closed");
    assert_eq!(closed.version.tag_name(), "v1.1.0");
    assert_eq!(closed.commit.as_str(), "c2");
    let last = w.finish().expect("the open era closes at the end");
    assert_eq!(last.version.tag_name(), "v1.0.0");
    assert_eq!(last.commit.as_str(), "c1");
}

#[test]
fn walker_finish_without_input_emits_nothing() {
    let w = Walker::new();
    assert!(w.finish().is_none());
}

#[test]
fn apply_is_idempotent() {
    let mut store = TagStore::new();
    let v = declared("1.0.0");
    let c = commit("2c58087a");
    assert_eq!(store.apply(&v, &c), Ok(TagOutcome::Created));
    assert_eq!(store.apply(&v, &c), Ok(TagOutcome::AlreadyTagged));
    assert_eq!(store.resolve("v1.0.0"), Some("2c58087a".to_string()));
}

#[test]
fn apply_fails_on_collision_with_a_different_commit() {
    let mut store = TagStore::new();
    let v = declared("1.0.0");
    assert_eq!(store.apply(&v, &commit("c0")), Ok(TagOutcome::Created));
    assert_eq!(store.apply(&v, &commit("c9")), Err(Error::TagCreationFailed));
    // The existing tag is untouched.
    assert_eq!(store.resolve("v1.0.0"), Some("c0".to_string()));
}

#[test]
fn tag_name_round_trips_through_the_store() {
    let mut store = TagStore::new();
    let v = declared("0.4.1");
    let name = v.tag_name();
    assert_eq!(name, "v0.4.1");
    assert_eq!(store.apply(&v, &commit("9d0fae2b")), Ok(TagOutcome::Created));
    assert_eq!(store.resolve(name.as_str()), Some("9d0fae2b".to_string()));
}

#[test]
fn resolve_missing_tag_is_none() {
    let store = TagStore::new();
    assert_eq!(store.resolve("v9.9.9"), None);
}

#[test]
fn already_tagged_needs_an_exact_target_match() {
    let c = commit("c1");
    assert!(already_tagged(&c, &Some("c1".to_string())));
    assert!(!already_tagged(&c, &Some("c2".to_string())));
    assert!(!already_tagged(&c, &None));
}

#[test]
fn create_outcome_maps_status() {
    assert_eq!(create_outcome(true), Ok(TagOutcome::Created));
    assert_eq!(create_outcome(false), Err(Error::TagCreationFailed));
}

#[test]
fn report_lines_match_the_output_format() {
    let c = commit("f36d7da9");
    let v = declared("0.4.0");
    assert_eq!(report_line(&c, &v, TagOutcome::Created), "f36d7da9 v0.4.0");
    assert_eq!(
        report_line(&c, &v, TagOutcome::AlreadyTagged),
        "f36d7da9 v0.4.0 (already tagged)"
    );
}

#[test]
fn tag_message_names_the_release() {
    assert_eq!(tag_message(&declared("0.3.0")), "Release v0.3.0");
}

#[test]
fn error_descriptions() {
    assert_eq!(Error::HistoryUnavailable.describe(), "cannot query the commit history");
    assert_eq!(Error::ManifestUnavailable.describe(), "manifest missing at a visited commit");
    assert_eq!(
        Error::ManifestMalformed.describe(),
        "manifest cannot be parsed at a visited commit"
    );
    assert_eq!(Error::TagResolutionFailed.describe(), "cannot resolve an existing tag");
    assert_eq!(Error::TagCreationFailed.describe(), "git tag failed");
}

#[test]
fn apply_all_tags_every_era_once() {
    let commits = vec![commit("c5"), commit("c4"), commit("c3"), commit("c2"), commit("c1")];
    let versions = vec![
        declared("1.2.0"),
        declared("1.2.0"),
        declared("1.1.0"),
        declared("1.1.0"),
        declared("1.0.0"),
    ];
    let events: Vec<Event> = walk(&commits, &versions);
    let mut store = TagStore::new();
    let first = apply_all(&mut store, &events).expect("every create succeeds");
    assert_eq!(first, vec![TagOutcome::Created, TagOutcome::Created, TagOutcome::Created]);
    let second = apply_all(&mut store, &events).expect("a re-run only confirms");
    assert_eq!(
        second,
        vec![TagOutcome::AlreadyTagged, TagOutcome::AlreadyTagged, TagOutcome::AlreadyTagged]
    );
    assert_eq!(store.resolve("v1.2.0"), Some("c4".to_string()));
    assert_eq!(store.resolve("v1.1.0"), Some("c2".to_string()));
    assert_eq!(store.resolve("v1.0.0"), Some("c1".to_string()));
}

#[test]
fn apply_all_aborts_on_the_first_failure_and_keeps_earlier_tags() {
    let commits = vec![commit("c3"), commit("c2"), commit("c1")];
    let versions = vec![declared("1.1.0"), declared("1.0.0"), declared("0.9.0")];
    let events = walk(&commits, &versions);
    let mut store = TagStore::new();
    // The middle era's tag name is already taken by an unrelated commit.
    assert_eq!(store.apply(&declared("1.0.0"), &commit("elsewhere")), Ok(TagOutcome::Created));
    assert_eq!(apply_all(&mut store, &events), Err(Error::TagCreationFailed));
    // The first era was tagged before the failure and remains; the last
    // era was never reached.
    assert_eq!(store.resolve("v1.1.0"), Some("c3".to_string()));
    assert_eq!(store.resolve("v1.0.0"), Some("elsewhere".to_string()));
    assert_eq!(store.resolve("v0.9.0"), None);
}
