//! The era walk: partitioning the commit history into version eras.
//!
//! The walk visits the commits that touched the manifest in the order the
//! history query hands them out — newest first, oldest last — together with
//! the version each commit's manifest declares. Consecutive commits sharing
//! a version form an era; whenever the version changes, the era that just
//! ended is closed with the *last* commit visited for it, which is the
//! chronologically earliest commit bearing that version and hence its
//! introduction point. One final event closes the era still open when the
//! input runs out.

use crate::version::Version;
use vstd::prelude::*;

verus! {

/// One tagging event: a version together with its introduction commit.
pub struct Event<'a> {
    pub version: Version,
    pub commit: crate::hash::Hash<'a>,
}

impl<'a> Event<'a> {
    /// An event always carries a declared version, never the unset state.
    pub open spec fn wf(&self) -> bool {
        self.version@ is Some
    }
}

impl<'a> View for Event<'a> {
    type V = (Seq<char>, Seq<char>);

    open spec fn view(&self) -> (Seq<char>, Seq<char>) {
        (self.version@->Some_0, self.commit@)
    }
}

/// The walker's accumulator: the version of the currently open era — `None`
/// before the first commit has been visited — and the last commit visited
/// within that era.
pub open spec fn initial_state() -> (Option<Seq<char>>, Seq<char>) {
    (None, Seq::<char>::empty())
}

/// The accumulator after visiting one more commit `c` declaring version
/// `v`: `c`'s era is open with `c` as its latest (hence oldest so far)
/// commit, whether the visit extended the open era or started a new one.
pub open spec fn step_state(
    st: (Option<Seq<char>>, Seq<char>),
    v: Seq<char>,
    c: Seq<char>,
) -> (Option<Seq<char>>, Seq<char>) {
    (Some(v), c)
}

/// The event, if any, that visiting a commit declaring version `v` emits:
/// an era closes exactly when it is open with a version different from
/// `v`, and its introduction commit is the last one visited for it.
pub open spec fn step_event(st: (Option<Seq<char>>, Seq<char>), v: Seq<char>) -> Option<
    (Seq<char>, Seq<char>),
> {
    match st.0 {
        Some(open_version) => if open_version == v {
            None
        } else {
            Some((open_version, st.1))
        },
        None => None,
    }
}

/// The accumulator after visiting all of `versions` and `commits`, paired
/// up positionally, first to last.
pub open spec fn walk_state(versions: Seq<Seq<char>>, commits: Seq<Seq<char>>) -> (
    Option<Seq<char>>,
    Seq<char>,
)
    decreases versions.len(),
{
    if versions.len() == 0 {
        initial_state()
    } else {
        step_state(
            walk_state(versions.drop_last(), commits.drop_last()),
            versions.last(),
            commits.last(),
        )
    }
}

/// The events emitted while visiting `versions` and `commits`, without the
/// event that closes the era still open at the end.
pub open spec fn walk_emitted(versions: Seq<Seq<char>>, commits: Seq<Seq<char>>) -> Seq<
    (Seq<char>, Seq<char>),
>
    decreases versions.len(),
{
    if versions.len() == 0 {
        Seq::<(Seq<char>, Seq<char>)>::empty()
    } else {
        let earlier = walk_emitted(versions.drop_last(), commits.drop_last());
        match step_event(
            walk_state(versions.drop_last(), commits.drop_last()),
            versions.last(),
        ) {
            Some(e) => earlier.push(e),
            None => earlier,
        }
    }
}

/// The event that closes the era still open when the input is exhausted:
/// none at all when no commit was ever visited.
pub open spec fn closing_event(st: (Option<Seq<char>>, Seq<char>)) -> Option<
    (Seq<char>, Seq<char>),
> {
    match st.0 {
        Some(open_version) => Some((open_version, st.1)),
        None => None,
    }
}

/// Every tagging event of a complete walk, in emission order.
pub open spec fn era_events(versions: Seq<Seq<char>>, commits: Seq<Seq<char>>) -> Seq<
    (Seq<char>, Seq<char>),
> {
    match closing_event(walk_state(versions, commits)) {
        Some(e) => walk_emitted(versions, commits).push(e),
        None => walk_emitted(versions, commits),
    }
}

/// The declared texts of a list of versions, each assumed declared.
pub open spec fn version_texts(versions: Seq<Version>) -> Seq<Seq<char>> {
    versions.map_values(|v: Version| v@->Some_0)
}

/// The identifier texts of a list of commits.
pub open spec fn commit_texts<'a>(commits: Seq<crate::hash::Hash<'a>>) -> Seq<Seq<char>> {
    commits.map_values(|c: crate::hash::Hash<'a>| c@)
}

/// Extending a walk by one more visit: the accumulator steps once, and the
/// emitted events grow by exactly the event that visit emits, if any.
proof fn lemma_walk_extend(
    versions: Seq<Seq<char>>,
    commits: Seq<Seq<char>>,
    v: Seq<char>,
    c: Seq<char>,
)
    ensures
        walk_state(versions.push(v), commits.push(c)) == step_state(
            walk_state(versions, commits),
            v,
            c,
        ),
        walk_emitted(versions.push(v), commits.push(c)) == (match step_event(
            walk_state(versions, commits),
            v,
        ) {
            Some(e) => walk_emitted(versions, commits).push(e),
            None => walk_emitted(versions, commits),
        }),
{
    assert(versions.push(v).drop_last() =~= versions);
    assert(commits.push(c).drop_last() =~= commits);
}

/// An empty history is nothing to do: the walk emits no event at all.
pub proof fn lemma_empty_history(versions: Seq<Seq<char>>, commits: Seq<Seq<char>>)
    requires
        versions.len() == 0,
    ensures
        era_events(versions, commits) == Seq::<(Seq<char>, Seq<char>)>::empty(),
{
}

/// A single-commit history declaring one version: the walk emits exactly
/// one event, that version at that commit.
pub proof fn lemma_single_commit(v: Seq<char>, c: Seq<char>)
    ensures
        era_events(seq![v], seq![c]) =~= seq![(v, c)],
{
    let none = Seq::<Seq<char>>::empty();
    lemma_walk_extend(none, none, v, c);
    assert(none.push(v) =~= seq![v]);
    assert(none.push(c) =~= seq![c]);
}

/// A history whose versions run `[a, a, b, b, b, a]` oldest to newest —
/// visited newest first, so as `a, b, b, b, a, a` over the commits `c5`
/// down to `c0` — yields exactly three events: the newest `a` era closes
/// on `c5`, the `b` era closes on `c2`, the oldest commit of its
/// three-commit run, and the oldest `a` era closes on `c0`. The two `a`
/// eras are independent and land on distinct commits whenever the history's
/// commit identifiers are distinct.
pub proof fn lemma_revert_makes_two_eras(
    a: Seq<char>,
    b: Seq<char>,
    c5: Seq<char>,
    c4: Seq<char>,
    c3: Seq<char>,
    c2: Seq<char>,
    c1: Seq<char>,
    c0: Seq<char>,
)
    requires
        a != b,
    ensures
        era_events(seq![a, b, b, b, a, a], seq![c5, c4, c3, c2, c1, c0]) =~= seq![
            (a, c5),
            (b, c2),
            (a, c0),
        ],
        c5 != c0 ==> era_events(seq![a, b, b, b, a, a], seq![c5, c4, c3, c2, c1, c0])[0].1
            != era_events(seq![a, b, b, b, a, a], seq![c5, c4, c3, c2, c1, c0])[2].1,
{
    let none = Seq::<Seq<char>>::empty();
    let v1 = none.push(a);
    let v2 = v1.push(b);
    let v3 = v2.push(b);
    let v4 = v3.push(b);
    let v5 = v4.push(a);
    let v6 = v5.push(a);
    let d1 = none.push(c5);
    let d2 = d1.push(c4);
    let d3 = d2.push(c3);
    let d4 = d3.push(c2);
    let d5 = d4.push(c1);
    let d6 = d5.push(c0);
    lemma_walk_extend(none, none, a, c5);
    lemma_walk_extend(v1, d1, b, c4);
    lemma_walk_extend(v2, d2, b, c3);
    lemma_walk_extend(v3, d3, b, c2);
    lemma_walk_extend(v4, d4, a, c1);
    lemma_walk_extend(v5, d5, a, c0);
    assert(v6 =~= seq![a, b, b, b, a, a]);
    assert(d6 =~= seq![c5, c4, c3, c2, c1, c0]);
    assert(era_events(v6, d6) =~= seq![(a, c5), (b, c2), (a, c0)]);
}

/// The era walk itself, fed one commit at a time.
pub struct Walker<'a> {
    current: Version,
    last: crate::hash::Hash<'a>,
}

impl<'a> Walker<'a> {
    /// The accumulator this walker holds.
    pub closed spec fn state(&self) -> (Option<Seq<char>>, Seq<char>) {
        (self.current@, self.last@)
    }

    /// A walker that has visited nothing yet: no era is open.
    pub fn new() -> (w: Self)
        ensures
            w.state() == initial_state(),
    {
        Walker { current: Version::default(), last: crate::hash::Hash::from_string(String::new()) }
    }

    /// Visits one commit and the version its manifest declares, returning
    /// the event for the era this visit closed, if it closed one.
    pub fn step(&mut self, version: Version, commit: crate::hash::Hash<'a>) -> (e: Option<Event<'a>>)
        requires
            version@ is Some,
        ensures
            final(self).state() == step_state(old(self).state(), version@->Some_0, commit@),
            match e {
                Some(ev) => ev.wf() && step_event(old(self).state(), version@->Some_0) == Some(
                    ev@,
                ),
                None => step_event(old(self).state(), version@->Some_0) is None,
            },
    {
        if self.current == version {
            self.last = commit;
            None
        } else if self.current.is_unset() {
            self.current = version;
            self.last = commit;
            None
        } else {
            let closed = Event { version: self.current.clone(), commit: self.last.clone() };
            self.current = version;
            self.last = commit;
            Some(closed)
        }
    }

    /// Ends the walk, returning the event for the era still open, if any
    /// commit was visited at all.
    pub fn finish(self) -> (e: Option<Event<'a>>)
        ensures
            match e {
                Some(ev) => ev.wf() && closing_event(self.state()) == Some(ev@),
                None => closing_event(self.state()) is None,
            },
    {
        if self.current.is_unset() {
            None
        } else {
            Some(Event { version: self.current, commit: self.last })
        }
    }
}

/// Walks a complete history in one pass: `commits` in the order the
/// history query produced them (newest first), `versions` the version each
/// commit's manifest declares, paired positionally. Returns every tagging
/// event, in emission order; an empty history yields no events.
pub fn walk<'a>(commits: &Vec<crate::hash::Hash<'a>>, versions: &Vec<Version>) -> (events: Vec<Event<'a>>)
    requires
        commits@.len() == versions@.len(),
        forall|i: int| 0 <= i < versions@.len() ==> (#[trigger] versions@[i])@ is Some,
    ensures
        events@.map_values(|e: Event<'a>| e@) == era_events(
            version_texts(versions@),
            commit_texts(commits@),
        ),
        forall|i: int| 0 <= i < events@.len() ==> (#[trigger] events@[i]).wf(),
{
    let ghost vtexts = version_texts(versions@);
    let ghost ctexts = commit_texts(commits@);
    let mut w = Walker::new();
    let mut events: Vec<Event<'a>> = Vec::new();
    let mut i: usize = 0;
    while i < commits.len()
        invariant
            commits@.len() == versions@.len(),
            forall|k: int| 0 <= k < versions@.len() ==> (#[trigger] versions@[k])@ is Some,
            i <= commits@.len(),
            vtexts == version_texts(versions@),
            ctexts == commit_texts(commits@),
            w.state() == walk_state(vtexts.take(i as int), ctexts.take(i as int)),
            events@.map_values(|e: Event<'a>| e@) == walk_emitted(
                vtexts.take(i as int),
                ctexts.take(i as int),
            ),
            forall|k: int| 0 <= k < events@.len() ==> (#[trigger] events@[k]).wf(),
        decreases commits@.len() - i,
    {
        let version = versions[i].clone();
        let commit = commits[i].clone();
        proof {
            assert(vtexts.take(i + 1).drop_last() =~= vtexts.take(i as int));
            assert(ctexts.take(i + 1).drop_last() =~= ctexts.take(i as int));
            assert(vtexts.take(i + 1).last() == version@->Some_0);
            assert(ctexts.take(i + 1).last() == commit@);
        }
        let ghost events_before = events@;
        let e = w.step(version, commit);
        if let Some(ev) = e {
            events.push(ev);
            proof {
                assert(events@.map_values(|x: Event<'a>| x@) =~= events_before.map_values(
                    |x: Event<'a>| x@,
                ).push(ev@));
            }
        }
        i = i + 1;
    }
    proof {
        assert(vtexts.take(commits@.len() as int) =~= vtexts);
        assert(ctexts.take(commits@.len() as int) =~= ctexts);
    }
    let ghost events_before = events@;
    if let Some(ev) = w.finish() {
        events.push(ev);
        proof {
            assert(events@.map_values(|x: Event<'a>| x@) =~= events_before.map_values(
                |x: Event<'a>| x@,
            ).push(ev@));
        }
    }
    events
}

} // verus!
