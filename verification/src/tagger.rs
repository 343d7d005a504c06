//! The tagging step: deciding, per era, whether a tag must be created.
//!
//! Given a version and the commit where it was introduced, the tagger
//! derives the tag name from the version's display form, looks the name up
//! among the tags that already exist, and either reports the tag as already
//! in place — when it resolves to exactly that commit — or attempts to
//! create it. A create attempt against a name that exists but points at a
//! different commit fails loudly instead of silently overwriting; existing
//! tags are never moved or deleted.

use crate::error::Error;
use crate::version::Version;
use vstd::prelude::*;
use vstd::string::StringExecFns;

verus! {

/// How one tagging decision ended.
#[derive(Debug, Clone, Copy, PartialEq, Eq, Structural)]
pub enum TagOutcome {
    /// The tag already resolves to the introduction commit; nothing was
    /// written.
    AlreadyTagged,
    /// The tag did not exist and was created.
    Created,
}

/// What one tagging decision leaves in the tag store, modelled as the map
/// from tag names to the commits they resolve to: an absent name is
/// entered, while a name already present — pointing at this commit or any
/// other — is left exactly as it was.
pub open spec fn apply_tags(
    tags: Map<Seq<char>, Seq<char>>,
    name: Seq<char>,
    commit: Seq<char>,
) -> Map<Seq<char>, Seq<char>> {
    if tags.contains_key(name) {
        tags
    } else {
        tags.insert(name, commit)
    }
}

/// What one tagging decision reports, over the same model:
/// `AlreadyTagged` when the name resolves to exactly the introduction
/// commit, `Created` when the name was free, and `TagCreationFailed` when
/// the name exists but points at a different commit, so that the create
/// attempt is refused.
pub open spec fn apply_outcome(
    tags: Map<Seq<char>, Seq<char>>,
    name: Seq<char>,
    commit: Seq<char>,
) -> Result<TagOutcome, Error> {
    if tags.contains_key(name) {
        if tags[name] == commit {
            Ok(TagOutcome::AlreadyTagged)
        } else {
            Err(Error::TagCreationFailed)
        }
    } else {
        Ok(TagOutcome::Created)
    }
}

/// The annotation message a created tag carries.
pub fn tag_message(version: &Version) -> (r: String)
    requires
        version@ is Some,
    ensures
        r@ == "Release "@ + version@->Some_0,
{
    let mut message = String::from_str("Release ");
    let name = version.tag_name();
    message.append(name.as_str());
    message
}

/// The report line for one tagging decision: the commit identifier, the
/// tag name, and a trailing remark for the idempotent case.
pub fn report_line(commit: &crate::hash::Hash<'_>, version: &Version, outcome: TagOutcome) -> (r:
    String)
    requires
        version@ is Some,
    ensures
        outcome == TagOutcome::Created ==> r@ == commit@ + " "@ + version@->Some_0,
        outcome == TagOutcome::AlreadyTagged ==> r@ == commit@ + " "@ + version@->Some_0
            + " (already tagged)"@,
{
    let mut line = String::from_str(commit.as_str());
    line.append(" ");
    let name = version.tag_name();
    line.append(name.as_str());
    match outcome {
        TagOutcome::AlreadyTagged => line.append(" (already tagged)"),
        TagOutcome::Created => (),
    }
    line
}

/// Whether a resolved tag target makes the tag already correct: it must
/// exist and point at exactly the introduction commit. A name that does
/// not resolve, or resolves elsewhere, needs a create attempt.
pub fn already_tagged(commit: &crate::hash::Hash<'_>, resolved: &Option<String>) -> (r: bool)
    ensures
        r == (resolved.deep_view() == Some(commit@)),
{
    match resolved {
        Some(target) => commit.eq_str(target.as_str()),
        None => false,
    }
}

/// How a create attempt's reported status becomes the tagger's outcome:
/// success means the tag was created, anything else is fatal for the
/// remaining run.
pub fn create_outcome(success: bool) -> (r: Result<TagOutcome, Error>)
    ensures
        success ==> r == Ok::<TagOutcome, Error>(TagOutcome::Created),
        !success ==> r == Err::<TagOutcome, Error>(Error::TagCreationFailed),
{
    if success {
        Ok(TagOutcome::Created)
    } else {
        Err(Error::TagCreationFailed)
    }
}

/// An in-memory tag store: the tag names that exist, each resolved to a
/// commit, playing the part git's tag namespace plays in a real run. Its
/// view is the map from tag names to commit identifiers.
pub struct TagStore {
    tags: vstd::hash_map::StringHashMap<String>,
}

impl TagStore {
    /// The stored names, each resolved to its commit.
    pub closed spec fn view(&self) -> Map<Seq<char>, Seq<char>> {
        self.tags@.map_values(|target: String| target@)
    }

    /// A store with no tags at all.
    pub fn new() -> (s: Self)
        ensures
            s@ == Map::<Seq<char>, Seq<char>>::empty(),
    {
        let s = TagStore { tags: vstd::hash_map::StringHashMap::new() };
        proof {
            assert(s@ =~= Map::<Seq<char>, Seq<char>>::empty());
        }
        s
    }

    /// Looks a tag name up, returning the commit it resolves to, or `None`
    /// for a tag that does not exist.
    pub fn resolve(&self, name: &str) -> (r: Option<String>)
        ensures
            match r {
                Some(target) => self@.contains_key(name@) && self@[name@] == target@,
                None => !self@.contains_key(name@),
            },
    {
        match self.tags.get(name) {
            Some(target) => Some(target.clone()),
            None => None,
        }
    }

    /// Creates a tag binding `name` to `commit`, annotated with `message`.
    /// Reports success only when the name was free; a name that already
    /// exists is left exactly as it was, even when it points elsewhere.
    /// Resolution only ever answers with the commit, so the store does not
    /// retain the message.
    pub fn create(&mut self, name: &str, commit: &crate::hash::Hash<'_>, _message: &str) -> (ok:
        bool)
        ensures
            ok == !old(self)@.contains_key(name@),
            ok ==> final(self)@ == old(self)@.insert(name@, commit@),
            !ok ==> final(self)@ == old(self)@,
    {
        if self.tags.contains_key(name) {
            false
        } else {
            self.tags.insert(name.to_owned(), commit.as_str().to_owned());
            proof {
                assert(self@ =~= old(self)@.insert(name@, commit@));
            }
            true
        }
    }

    /// One complete tagging decision: derive the tag name from `version`,
    /// report the tag as already in place when it resolves to `commit`,
    /// and otherwise attempt to create it, which fails exactly when the
    /// name is taken by a different commit.
    pub fn apply(&mut self, version: &Version, commit: &crate::hash::Hash<'_>) -> (r: Result<
        TagOutcome,
        Error,
    >)
        requires
            version@ is Some,
        ensures
            r == apply_outcome(old(self)@, version@->Some_0, commit@),
            final(self)@ == apply_tags(old(self)@, version@->Some_0, commit@),
    {
        let name = version.tag_name();
        let resolved = self.resolve(name.as_str());
        if already_tagged(commit, &resolved) {
            Ok(TagOutcome::AlreadyTagged)
        } else {
            let message = tag_message(version);
            let ok = self.create(name.as_str(), commit, message.as_str());
            create_outcome(ok)
        }
    }
}

/// The tags left after deciding each event in order, stopping at the
/// first failure: tags created before the failure remain, nothing is
/// rolled back.
pub open spec fn run_tags(
    tags: Map<Seq<char>, Seq<char>>,
    events: Seq<(Seq<char>, Seq<char>)>,
) -> Map<Seq<char>, Seq<char>>
    decreases events.len(),
{
    if events.len() == 0 {
        tags
    } else if apply_outcome(tags, events.first().0, events.first().1) is Err {
        apply_tags(tags, events.first().0, events.first().1)
    } else {
        run_tags(apply_tags(tags, events.first().0, events.first().1), events.drop_first())
    }
}

/// The per-era outcomes of deciding each event in order, or the first
/// failure, which aborts the remaining eras.
pub open spec fn run_outcome(
    tags: Map<Seq<char>, Seq<char>>,
    events: Seq<(Seq<char>, Seq<char>)>,
) -> Result<Seq<TagOutcome>, Error>
    decreases events.len(),
{
    if events.len() == 0 {
        Ok(Seq::<TagOutcome>::empty())
    } else {
        match apply_outcome(tags, events.first().0, events.first().1) {
            Err(e) => Err(e),
            Ok(outcome) => match run_outcome(
                apply_tags(tags, events.first().0, events.first().1),
                events.drop_first(),
            ) {
                Ok(rest) => Ok(seq![outcome] + rest),
                Err(e) => Err(e),
            },
        }
    }
}

/// Decides every tagging event in order against `store`, stopping at the
/// first failure: the outcome of each decided era on success, or the
/// failure, with every tag created before it still in place.
#[verifier::loop_isolation(false)]
pub fn apply_all<'a>(store: &mut TagStore, events: &Vec<crate::walker::Event<'a>>) -> (r: Result<
    Vec<TagOutcome>,
    Error,
>)
    requires
        forall|i: int| 0 <= i < events@.len() ==> (#[trigger] events@[i]).wf(),
    ensures
        final(store)@ == run_tags(
            old(store)@,
            events@.map_values(|e: crate::walker::Event<'a>| e@),
        ),
        match r {
            Ok(outcomes) => run_outcome(
                old(store)@,
                events@.map_values(|e: crate::walker::Event<'a>| e@),
            ) == Ok::<Seq<TagOutcome>, Error>(outcomes@),
            Err(e) => run_outcome(
                old(store)@,
                events@.map_values(|e: crate::walker::Event<'a>| e@),
            ) == Err::<Seq<TagOutcome>, Error>(e),
        },
{
    let ghost evs = events@.map_values(|e: crate::walker::Event<'a>| e@);
    let ghost tags0 = old(store)@;
    let mut outcomes: Vec<TagOutcome> = Vec::new();
    let mut i: usize = 0;
    proof {
        assert(evs.skip(0) =~= evs);
        if run_outcome(tags0, evs) is Ok {
            let rest = run_outcome(tags0, evs)->Ok_0;
            assert(Seq::<TagOutcome>::empty() + rest =~= rest);
        }
    }
    while i < events.len()
        invariant
            forall|k: int| 0 <= k < events@.len() ==> (#[trigger] events@[k]).wf(),
            evs == events@.map_values(|e: crate::walker::Event<'a>| e@),
            i <= events@.len(),
            run_tags(tags0, evs) == run_tags(store@, evs.skip(i as int)),
            match run_outcome(store@, evs.skip(i as int)) {
                Ok(rest) => run_outcome(tags0, evs) == Ok::<Seq<TagOutcome>, Error>(
                    outcomes@ + rest,
                ),
                Err(e) => run_outcome(tags0, evs) == Err::<Seq<TagOutcome>, Error>(e),
            },
        decreases events@.len() - i,
    {
        proof {
            assert(evs[i as int] == events@[i as int]@);
            assert(evs.skip(i as int).first() == evs[i as int]);
            assert(evs.skip(i as int).drop_first() =~= evs.skip(i + 1));
        }
        let ghost outcomes_before = outcomes@;
        let ghost store_pre = store@;
        let event = &events[i];
        let decided = store.apply(&event.version, &event.commit);
        match decided {
            Ok(outcome) => {
                outcomes.push(outcome);
                proof {
                    assert(run_tags(store_pre, evs.skip(i as int)) == run_tags(
                        store@,
                        evs.skip(i + 1),
                    ));
                    if run_outcome(store@, evs.skip(i + 1)) is Ok {
                        let rest = run_outcome(store@, evs.skip(i + 1))->Ok_0;
                        assert(outcomes_before + (seq![outcome] + rest) =~= outcomes@ + rest);
                    }
                }
            },
            Err(e) => {
                proof {
                    assert(run_tags(store_pre, evs.skip(i as int)) == store@);
                    assert(run_outcome(store_pre, evs.skip(i as int)) == Err::<
                        Seq<TagOutcome>,
                        Error,
                    >(e));
                }
                return Err(e);
            },
        }
        i = i + 1;
    }
    proof {
        assert(evs.skip(events@.len() as int) =~= Seq::<(Seq<char>, Seq<char>)>::empty());
        assert(outcomes@ + Seq::<TagOutcome>::empty() =~= outcomes@);
    }
    Ok(outcomes)
}

/// No events is nothing to do: deciding an empty event sequence writes no
/// tag, reports no outcome, and succeeds.
pub proof fn lemma_no_events_no_tags(tags: Map<Seq<char>, Seq<char>>)
    ensures
        run_tags(tags, Seq::<(Seq<char>, Seq<char>)>::empty()) == tags,
        run_outcome(tags, Seq::<(Seq<char>, Seq<char>)>::empty()) == Ok::<Seq<TagOutcome>, Error>(
            Seq::<TagOutcome>::empty(),
        ),
{
}

/// Idempotence of the tagging decision: once a version and commit have
/// been applied successfully, applying the same pair again reports
/// `AlreadyTagged` and changes no tag.
pub proof fn lemma_apply_idempotent(
    tags: Map<Seq<char>, Seq<char>>,
    name: Seq<char>,
    commit: Seq<char>,
)
    requires
        apply_outcome(tags, name, commit) is Ok,
    ensures
        apply_outcome(apply_tags(tags, name, commit), name, commit) == Ok::<TagOutcome, Error>(
            TagOutcome::AlreadyTagged,
        ),
        apply_tags(apply_tags(tags, name, commit), name, commit) == apply_tags(tags, name, commit),
{
}

/// A tag-name collision: when the name already resolves to a different
/// commit, the decision propagates `TagCreationFailed` instead of
/// reporting success, and the existing tag is untouched.
pub proof fn lemma_collision_fails(
    tags: Map<Seq<char>, Seq<char>>,
    name: Seq<char>,
    commit: Seq<char>,
)
    requires
        tags.contains_key(name),
        tags[name] != commit,
    ensures
        apply_outcome(tags, name, commit) == Err::<TagOutcome, Error>(Error::TagCreationFailed),
        apply_tags(tags, name, commit) == tags,
{
}

/// Round trip of a derived tag name: the name of a declared version is
/// exactly its raw text behind the `v` marker, and once created, looking
/// that very name up resolves to the commit it was bound to — no
/// normalization loss in either direction.
pub proof fn lemma_tag_name_round_trip(
    tags: Map<Seq<char>, Seq<char>>,
    raw: Seq<char>,
    commit: Seq<char>,
)
    requires
        !tags.contains_key(seq!['v'] + raw),
    ensures
        apply_tags(tags, seq!['v'] + raw, commit).contains_key(seq!['v'] + raw),
        apply_tags(tags, seq!['v'] + raw, commit)[seq!['v'] + raw] == commit,
{
}

} // verus!
