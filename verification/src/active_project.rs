//! The project that the user is currently active in.
//!
//! A tool call carries no working directory, so a tool handler cannot know
//! which project its agent is sitting in. The lifecycle hooks do know: every
//! hook event carries the agent's working directory, which is resolved to a
//! workspace and a project. The hook router publishes the pair here, and the
//! tools read it as their default.
//!
//! In mode `Single` there is one slot, and the last write wins. The other two
//! modes keep an entry per actor beside that slot, keyed by what the mode uses
//! of the actor's identity:
//!
//! - `PerSession` keys by the session, and keeps apart the concurrent agent
//!   runs of one operator;
//! - `PerActor` keys by user and session, and keeps operators apart as well.
//!
//! A caller without an identity reads and writes the one slot in every mode.
//!
//! Entries carry the time at which they were set. They are dropped once they
//! are as old as the time to live, on every read and write that is keyed, and
//! the number of entries is capped: the oldest leave first.
//!
//! Times are nanoseconds of a monotonic clock since the pointer was made.

use crate::ids::{ProjectId, WorkspaceId};
use crate::stopwatch::Stopwatch;
use std::time::Instant;
use vstd::prelude::*;

verus! {

/// Time to live of an entry, in nanoseconds, where none is chosen: one hour.
pub const DEFAULT_PER_KEY_TTL: u128 = 3_600_000_000_000;

/// Most entries that are kept, where no number is chosen.
pub const DEFAULT_MAX_ENTRIES: usize = 4096;

/// How the hook router and the tools share the pointer.
#[derive(Debug, Clone, Copy, PartialEq, Eq, Structural)]
pub enum ActiveProjectMode {
    /// One slot for the process; the last write wins.
    Single,
    /// Keyed by session.
    PerSession,
    /// Keyed by user and session.
    PerActor,
}

impl Default for ActiveProjectMode {
    fn default() -> (r: Self)
        ensures
            r == ActiveProjectMode::Single,
    {
        ActiveProjectMode::Single
    }
}

/// Who makes a call, as far as it is known.
#[derive(Debug, PartialEq, Eq, Hash)]
pub struct ActorKey {
    /// The user that the request was authenticated as.
    pub user: Option<String>,
    /// The agent run that the lifecycle hooks announced.
    pub session_id: Option<String>,
}

/// An [`ActorKey`] as a mathematical value.
#[verifier::ext_equal]
pub struct Identity {
    pub user: Option<Seq<char>>,
    pub session_id: Option<Seq<char>>,
}

/// The characters of an optional text.
pub open spec fn text_of(s: Option<String>) -> Option<Seq<char>> {
    match s {
        Some(t) => Some(t@),
        None => None,
    }
}

impl View for ActorKey {
    type V = Identity;

    open spec fn view(&self) -> Identity {
        Identity { user: text_of(self.user), session_id: text_of(self.session_id) }
    }
}

impl Identity {
    /// Neither coordinate is known.
    pub open spec fn is_empty(self) -> bool {
        self.user is None && self.session_id is None
    }
}

impl Clone for ActorKey {
    fn clone(&self) -> (r: Self)
        ensures
            r@ == self@,
    {
        ActorKey { user: copy_text(&self.user), session_id: copy_text(&self.session_id) }
    }
}

impl Default for ActorKey {
    fn default() -> (r: Self)
        ensures
            r@.is_empty(),
    {
        ActorKey { user: None, session_id: None }
    }
}

fn copy_text(s: &Option<String>) -> (r: Option<String>)
    ensures
        text_of(r) == text_of(*s),
{
    match s {
        Some(t) => Some(t.clone()),
        None => None,
    }
}

fn same_optional_text(a: &Option<String>, b: &Option<String>) -> (r: bool)
    ensures
        r == (text_of(*a) == text_of(*b)),
{
    match (a, b) {
        (Some(x), Some(y)) => *x == *y,
        (None, None) => true,
        _ => false,
    }
}

impl ActorKey {
    /// `true` where neither identity coordinate is present.
    pub fn is_empty(&self) -> (r: bool)
        ensures
            r == self@.is_empty(),
    {
        self.user.is_none() && self.session_id.is_none()
    }

    /// Whether two keys name the same actor.
    pub fn same(&self, other: &ActorKey) -> (r: bool)
        ensures
            r == (self@ == other@),
    {
        same_optional_text(&self.user, &other.user) && same_optional_text(
            &self.session_id,
            &other.session_id,
        )
    }
}

/// What is kept for one key.
#[verifier::ext_equal]
pub struct Slot {
    pub workspace: WorkspaceId,
    pub project: ProjectId,
    pub inserted: int,
}

/// An entry set at `slot.inserted` is still good at `now`.
pub open spec fn is_live(slot: Slot, now: int, ttl: int) -> bool {
    now - slot.inserted < ttl
}

/// The entries that are still good at `now`.
pub open spec fn live(entries: Map<Identity, Slot>, now: int, ttl: int) -> Map<Identity, Slot> {
    Map::new(
        |k: Identity| entries.contains_key(k) && is_live(entries[k], now, ttl),
        |k: Identity| entries[k],
    )
}

/// `after` is `before` cut down to `max` entries: no more leave than must, and
/// none that leaves was set later than one that stays. Which of two entries
/// of the same age leaves is open.
pub open spec fn capped(
    before: Map<Identity, Slot>,
    after: Map<Identity, Slot>,
    max: nat,
) -> bool {
    &&& after.submap_of(before)
    &&& after.dom().finite()
    &&& after.len() == if before.len() <= max {
        before.len()
    } else {
        max
    }
    &&& forall|d: Identity, k: Identity|
        before.contains_key(d) && !#[trigger] after.contains_key(d) && #[trigger] after.contains_key(
            k,
        ) ==> before[d].inserted <= before[k].inserted
}

/// No entry was set after `now`.
pub open spec fn none_after(entries: Map<Identity, Slot>, now: int) -> bool {
    forall|k: Identity| #[trigger] entries.contains_key(k) ==> entries[k].inserted <= now
}

/// `after` is what is left of `before` once `slot` has been set under `key` at
/// its time: the entries that are no longer good leave, then the cap is
/// applied. The new entry is the last to leave among those of its age, so it
/// stays unless some other was set later.
pub open spec fn inserted(
    before: Map<Identity, Slot>,
    key: Identity,
    slot: Slot,
    ttl: int,
    max: nat,
    after: Map<Identity, Slot>,
) -> bool {
    &&& capped(live(before, slot.inserted, ttl).insert(key, slot), after, max)
    &&& none_after(before, slot.inserted) ==> after.contains_key(key)
}

struct Entry {
    key: ActorKey,
    workspace: WorkspaceId,
    project: ProjectId,
    inserted: u128,
}

spec fn slot_of(e: Entry) -> Slot {
    Slot { workspace: e.workspace, project: e.project, inserted: e.inserted as int }
}

spec fn map_of(entries: Seq<Entry>) -> Map<Identity, Slot>
    decreases entries.len(),
{
    if entries.len() == 0 {
        Map::empty()
    } else {
        map_of(entries.drop_last()).insert(entries.last().key@, slot_of(entries.last()))
    }
}

spec fn distinct_keys(entries: Seq<Entry>) -> bool {
    forall|i: int, j: int|
        0 <= i < j < entries.len() ==> (#[trigger] entries[i]).key@ != (#[trigger] entries[j]).key@
}

proof fn lemma_map_of(entries: Seq<Entry>)
    requires
        distinct_keys(entries),
    ensures
        map_of(entries).dom().finite(),
        map_of(entries).len() == entries.len(),
        forall|i: int|
            0 <= i < entries.len() ==> map_of(entries).contains_key((#[trigger] entries[i]).key@)
                && map_of(entries)[entries[i].key@] == slot_of(entries[i]),
        forall|k: Identity| #[trigger]
            map_of(entries).contains_key(k) ==> exists|i: int|
                0 <= i < entries.len() && (#[trigger] entries[i]).key@ == k,
    decreases entries.len(),
{
    if entries.len() > 0 {
        let rest = entries.drop_last();
        assert(distinct_keys(rest));
        lemma_map_of(rest);
        assert(!map_of(rest).contains_key(entries.last().key@)) by {
            if map_of(rest).contains_key(entries.last().key@) {
                let i = choose|i: int|
                    0 <= i < rest.len() && (#[trigger] rest[i]).key@ == entries.last().key@;
                assert(entries[i].key@ == entries[entries.len() - 1].key@);
            }
        }
        assert forall|i: int| 0 <= i < entries.len() implies map_of(entries).contains_key(
            (#[trigger] entries[i]).key@,
        ) && map_of(entries)[entries[i].key@] == slot_of(entries[i]) by {
            if i < rest.len() {
                assert(rest[i] == entries[i]);
                assert(entries[i].key@ != entries[entries.len() - 1].key@);
            }
        }
        assert forall|k: Identity| #[trigger] map_of(entries).contains_key(k) implies exists|i: int|
            0 <= i < entries.len() && (#[trigger] entries[i]).key@ == k by {
            if k == entries.last().key@ {
                assert(entries[entries.len() - 1].key@ == k);
            } else {
                assert(map_of(rest).contains_key(k));
                let i = choose|i: int| 0 <= i < rest.len() && (#[trigger] rest[i]).key@ == k;
                assert(entries[i].key@ == k);
            }
        }
    }
}

proof fn lemma_remove_entry(entries: Seq<Entry>, at: int)
    requires
        distinct_keys(entries),
        0 <= at < entries.len(),
    ensures
        distinct_keys(entries.remove(at)),
        map_of(entries.remove(at)) == map_of(entries).remove(entries[at].key@),
{
    let cut = entries.remove(at);
    assert(distinct_keys(cut)) by {
        assert forall|i: int, j: int| 0 <= i < j < cut.len() implies (#[trigger] cut[i]).key@ != (
        #[trigger] cut[j]).key@ by {
            let a = if i < at {
                i
            } else {
                i + 1
            };
            let b = if j < at {
                j
            } else {
                j + 1
            };
            assert(cut[i] == entries[a]);
            assert(cut[j] == entries[b]);
        }
    }
    lemma_map_of(entries);
    lemma_map_of(cut);
    let want = map_of(entries).remove(entries[at].key@);
    assert forall|k: Identity| map_of(cut).contains_key(k) implies want.contains_key(k)
        && map_of(cut)[k] == want[k] by {
        let i = choose|i: int| 0 <= i < cut.len() && (#[trigger] cut[i]).key@ == k;
        let a = if i < at {
            i
        } else {
            i + 1
        };
        assert(cut[i] == entries[a]);
        if a < at {
            assert(entries[a].key@ != entries[at].key@);
        } else {
            assert(entries[at].key@ != entries[a].key@);
        }
    }
    assert forall|k: Identity| want.contains_key(k) implies map_of(cut).contains_key(k) by {
        let a = choose|a: int| 0 <= a < entries.len() && (#[trigger] entries[a]).key@ == k;
        let i = if a < at {
            a
        } else {
            a - 1
        };
        assert(cut[i] == entries[a]);
    }
    assert(map_of(cut) =~= want);
}

/// The entries of the keyed modes.
pub struct PerActorMap {
    entries: Vec<Entry>,
    ttl: u128,
    max_entries: usize,
}

impl PerActorMap {
    /// No key has two entries, and their number does not exceed the cap.
    pub closed spec fn wf(self) -> bool {
        &&& distinct_keys(self.entries@)
        &&& self.entries.len() <= self.max_entries
        &&& self.max_entries >= 1
        &&& self.ttl > 0
    }

    /// What is kept for each key.
    pub closed spec fn map(self) -> Map<Identity, Slot> {
        map_of(self.entries@)
    }

    /// How long an entry is good.
    pub closed spec fn lifetime(self) -> int {
        self.ttl as int
    }

    /// Most entries that are kept.
    pub closed spec fn cap(self) -> nat {
        self.max_entries as nat
    }

    /// No entries yet. A `ttl` of zero stands for the default, a `max_entries`
    /// of zero for one.
    pub fn new(ttl: u128, max_entries: usize) -> (r: Self)
        ensures
            r.wf(),
            r.map() == Map::<Identity, Slot>::empty(),
            r.lifetime() == effective_ttl(ttl as int),
            r.cap() == effective_max(max_entries as nat),
    {
        PerActorMap {
            entries: Vec::new(),
            ttl: if ttl == 0 {
                DEFAULT_PER_KEY_TTL
            } else {
                ttl
            },
            max_entries: if max_entries == 0 {
                1
            } else {
                max_entries
            },
        }
    }

    /// Drops the entries that are no longer good.
    fn purge_expired(&mut self, now: u128)
        requires
            distinct_keys(old(self).entries@),
            old(self).ttl > 0,
        ensures
            distinct_keys(final(self).entries@),
            final(self).entries.len() <= old(self).entries.len(),
            final(self).ttl == old(self).ttl,
            final(self).max_entries == old(self).max_entries,
            final(self).map() == live(old(self).map(), now as int, old(self).ttl as int),
    {
        let ghost before = self.map();
        let ghost bound = self.entries.len();
        let ttl: u128 = self.ttl;
        let mut i: usize = 0;
        while i < self.entries.len()
            invariant
                i <= self.entries.len() <= bound,
                bound == old(self).entries.len(),
                ttl > 0,
                self.ttl == ttl,
                ttl == old(self).ttl,
                self.max_entries == old(self).max_entries,
                distinct_keys(self.entries@),
                live(self.map(), now as int, ttl as int) == live(before, now as int, ttl as int),
                forall|j: int|
                    0 <= j < i ==> is_live(
                        slot_of(#[trigger] self.entries@[j]),
                        now as int,
                        ttl as int,
                    ),
            decreases self.entries.len() - i,
        {
            let inserted: u128 = self.entries[i].inserted;
            let age: u128 = if now >= inserted {
                now - inserted
            } else {
                0
            };
            if age < ttl {
                i += 1;
            } else {
                proof {
                    lemma_map_of(self.entries@);
                    lemma_remove_entry(self.entries@, i as int);
                    let m = self.map();
                    let cut = m.remove(self.entries@[i as int].key@);
                    assert(live(cut, now as int, ttl as int) =~= live(m, now as int, ttl as int));
                }
                self.entries.remove(i);
            }
        }
        proof {
            lemma_map_of(self.entries@);
            assert(live(self.map(), now as int, ttl as int) =~= self.map()) by {
                assert forall|k: Identity| #[trigger] self.map().contains_key(k) implies is_live(
                    self.map()[k],
                    now as int,
                    ttl as int,
                ) by {
                    let j = choose|j: int|
                        0 <= j < self.entries@.len() && (#[trigger] self.entries@[j]).key@ == k;
                    assert(is_live(slot_of(self.entries@[j]), now as int, ttl as int));
                }
            }
        }
    }

    /// Drops the oldest entries until no more than the cap are left.
    fn enforce_cap(&mut self)
        requires
            distinct_keys(old(self).entries@),
        ensures
            distinct_keys(final(self).entries@),
            final(self).entries.len() <= old(self).max_entries,
            final(self).ttl == old(self).ttl,
            final(self).max_entries == old(self).max_entries,
            capped(old(self).map(), final(self).map(), old(self).max_entries as nat),
            old(self).max_entries >= 1 && newest_last(old(self).entries@)
                ==> final(self).map().contains_key(old(self).entries@.last().key@),
    {
        let ghost before = self.map();
        let ghost settled = self.max_entries >= 1 && newest_last(self.entries@);
        let ghost newest = self.entries@.last();
        proof {
            lemma_map_of(self.entries@);
        }
        while self.entries.len() > self.max_entries
            invariant
                self.ttl == old(self).ttl,
                self.max_entries == old(self).max_entries,
                distinct_keys(self.entries@),
                before == old(self).map(),
                before.len() == old(self).entries.len(),
                settled ==> self.max_entries >= 1 && newest_last(self.entries@)
                    && self.entries@.last() == newest,
                self.entries.len() <= old(self).entries.len(),
                self.entries.len() >= self.max_entries || self.entries.len()
                    == old(self).entries.len(),
                self.map().submap_of(before),
                forall|d: Identity, k: Identity|
                    before.contains_key(d) && !#[trigger] self.map().contains_key(d)
                        && #[trigger] self.map().contains_key(k) ==> before[d].inserted
                        <= before[k].inserted,
            decreases self.entries.len(),
        {
            let mut oldest: usize = 0;
            let mut i: usize = 1;
            while i < self.entries.len()
                invariant
                    oldest < i <= self.entries.len(),
                    settled ==> newest_last(self.entries@) && oldest < self.entries.len() - 1,
                    forall|j: int|
                        0 <= j < i ==> self.entries@[oldest as int].inserted <= (
                        #[trigger] self.entries@[j]).inserted,
                decreases self.entries.len() - i,
            {
                if self.entries[i].inserted < self.entries[oldest].inserted {
                    oldest = i;
                }
                i += 1;
            }
            let ghost m = self.map();
            let ghost held = self.entries@;
            let ghost gone = self.entries@[oldest as int].key@;
            proof {
                lemma_map_of(self.entries@);
                lemma_remove_entry(self.entries@, oldest as int);
                assert forall|k: Identity| #[trigger] m.contains_key(k) implies m[gone].inserted
                    <= m[k].inserted by {
                    let j = choose|j: int|
                        0 <= j < self.entries@.len() && (#[trigger] self.entries@[j]).key@ == k;
                    assert(self.entries@[oldest as int].inserted <= self.entries@[j].inserted);
                }
            }
            self.entries.remove(oldest);
            assert(self.map() == m.remove(gone));
            assert(settled ==> self.entries@.last() == newest && newest_last(self.entries@)) by {
                if settled {
                    assert(self.entries@ =~= held.remove(oldest as int));
                    assert(self.entries@.last() == held.last());
                    assert forall|j: int| 0 <= j < self.entries@.len() implies (
                    #[trigger] self.entries@[j]).inserted <= self.entries@.last().inserted by {
                        let k = if j < oldest {
                            j
                        } else {
                            j + 1
                        };
                        assert(self.entries@[j] == held[k]);
                    }
                }
            }
            assert forall|d: Identity, k: Identity|
                before.contains_key(d) && !#[trigger] self.map().contains_key(d)
                    && #[trigger] self.map().contains_key(k) implies before[d].inserted
                <= before[k].inserted by {
                assert(m.contains_key(k) && before.contains_key(k) && m[k] == before[k]);
                if d == gone {
                    assert(m.contains_key(gone) && before.contains_key(gone));
                } else {
                    assert(!m.contains_key(d));
                }
            }
        }
        proof {
            lemma_map_of(self.entries@);
        }
    }

    /// `at_least`, or the time of the latest entry where that is later.
    fn latest(&self, at_least: u128) -> (r: u128)
        requires
            self.wf(),
        ensures
            none_after(self.map(), r as int),
            at_least <= r,
            r == at_least || exists|k: Identity| #[trigger]
                self.map().contains_key(k) && self.map()[k].inserted == r,
    {
        let mut r: u128 = at_least;
        let mut i: usize = 0;
        proof {
            lemma_map_of(self.entries@);
        }
        while i < self.entries.len()
            invariant
                i <= self.entries.len(),
                at_least <= r,
                distinct_keys(self.entries@),
                forall|j: int| 0 <= j < i ==> (#[trigger] self.entries@[j]).inserted <= r,
                r == at_least || exists|j: int|
                    0 <= j < self.entries@.len() && (#[trigger] self.entries@[j]).inserted == r,
            decreases self.entries.len() - i,
        {
            if self.entries[i].inserted > r {
                r = self.entries[i].inserted;
                assert(self.entries@[i as int].inserted == r);
            }
            i += 1;
        }
        proof {
            assert forall|k: Identity| #[trigger] self.map().contains_key(
                k,
            ) implies self.map()[k].inserted <= r by {
                let j = choose|j: int|
                    0 <= j < self.entries@.len() && (#[trigger] self.entries@[j]).key@ == k;
                assert(self.entries@[j].inserted <= r);
            }
            if r != at_least {
                let j = choose|j: int|
                    0 <= j < self.entries@.len() && (#[trigger] self.entries@[j]).inserted == r;
                assert(self.map().contains_key(self.entries@[j].key@));
            }
        }
        r
    }

    fn find(&self, key: &ActorKey) -> (r: Option<usize>)
        requires
            distinct_keys(self.entries@),
        ensures
            match r {
                Some(i) => i < self.entries.len() && self.entries@[i as int].key@ == key@,
                None => !self.map().contains_key(key@),
            },
    {
        proof {
            lemma_map_of(self.entries@);
        }
        let mut i: usize = 0;
        while i < self.entries.len()
            invariant
                i <= self.entries.len(),
                forall|j: int| 0 <= j < i ==> (#[trigger] self.entries@[j]).key@ != key@,
            decreases self.entries.len() - i,
        {
            if self.entries[i].key.same(key) {
                return Some(i);
            }
            i += 1;
        }
        None
    }

    /// Sets the entry of `key` at `now`.
    pub fn insert(&mut self, key: ActorKey, ws: WorkspaceId, proj: ProjectId, now: u128)
        requires
            old(self).wf(),
        ensures
            final(self).wf(),
            final(self).lifetime() == old(self).lifetime(),
            final(self).cap() == old(self).cap(),
            inserted(
                old(self).map(),
                key@,
                (Slot { workspace: ws, project: proj, inserted: now as int }),
                old(self).lifetime(),
                old(self).cap(),
                final(self).map(),
            ),
    {
        let ghost first = self.map();
        self.purge_expired(now);
        let ghost kept = self.map();
        let ghost id = key@;
        match self.find(&key) {
            Some(i) => {
                proof {
                    lemma_map_of(self.entries@);
                    lemma_remove_entry(self.entries@, i as int);
                }
                self.entries.remove(i);
                assert(self.map() == kept.remove(id));
            },
            None => {},
        }
        proof {
            lemma_map_of(self.entries@);
            assert(!self.map().contains_key(id));
        }
        let ghost rest = self.entries@;
        self.entries.push(Entry { key, workspace: ws, project: proj, inserted: now });
        proof {
            assert(self.entries@.drop_last() =~= rest);
            assert forall|i: int, j: int| 0 <= i < j < self.entries@.len() implies (
            #[trigger] self.entries@[i]).key@ != (#[trigger] self.entries@[j]).key@ by {
                assert(self.entries@[i] == rest[i]);
                if j < rest.len() {
                    assert(self.entries@[j] == rest[j]);
                }
            }
            assert(self.map() =~= kept.insert(
                id,
                Slot { workspace: ws, project: proj, inserted: now as int },
            ));
        }
        proof {
            if none_after(first, now as int) {
                assert forall|j: int| 0 <= j < self.entries@.len() implies (
                #[trigger] self.entries@[j]).inserted <= self.entries@.last().inserted by {
                    if j < rest.len() {
                        assert(self.entries@[j] == rest[j]);
                        lemma_map_of(rest);
                        assert(map_of(rest).contains_key(rest[j].key@));
                        assert(kept.contains_key(rest[j].key@));
                        assert(first.contains_key(rest[j].key@));
                    }
                }
                assert(newest_last(self.entries@));
            }
        }
        self.enforce_cap();
    }

    /// What the entry of `key` holds at `now`, where it is good. Those that are
    /// not leave; those that are stay as they are.
    pub fn get(&mut self, key: &ActorKey, now: u128) -> (r: Option<(WorkspaceId, ProjectId)>)
        requires
            old(self).wf(),
        ensures
            final(self).wf(),
            final(self).lifetime() == old(self).lifetime(),
            final(self).cap() == old(self).cap(),
            final(self).map() == live(old(self).map(), now as int, old(self).lifetime()),
            r == target(final(self).map(), key@),
    {
        self.purge_expired(now);
        proof {
            lemma_map_of(self.entries@);
        }
        match self.find(key) {
            Some(i) => Some((self.entries[i].workspace, self.entries[i].project)),
            None => None,
        }
    }
}

/// The last entry was set no earlier than any other.
spec fn newest_last(entries: Seq<Entry>) -> bool {
    &&& entries.len() > 0
    &&& forall|j: int|
        0 <= j < entries.len() ==> (#[trigger] entries[j]).inserted <= entries.last().inserted
}

/// What the entries hold for `key`.
pub open spec fn target(entries: Map<Identity, Slot>, key: Identity) -> Option<
    (WorkspaceId, ProjectId),
> {
    if entries.contains_key(key) {
        Some((entries[key].workspace, entries[key].project))
    } else {
        None
    }
}

/// The time to live that is used where `ttl` is asked for.
pub open spec fn effective_ttl(ttl: int) -> int {
    if ttl == 0 {
        DEFAULT_PER_KEY_TTL as int
    } else {
        ttl
    }
}

/// The cap that is used where `max_entries` is asked for.
pub open spec fn effective_max(max_entries: nat) -> nat {
    if max_entries == 0 {
        1
    } else {
        max_entries
    }
}

/// The pointer as a mathematical value.
#[verifier::ext_equal]
pub struct ActiveState {
    pub mode: ActiveProjectMode,
    pub single: Option<(WorkspaceId, ProjectId)>,
    pub entries: Map<Identity, Slot>,
    pub ttl: int,
    pub max_entries: nat,
}

impl ActiveState {
    /// The number of entries is bounded.
    pub open spec fn wf(self) -> bool {
        &&& self.ttl > 0
        &&& self.max_entries >= 1
        &&& self.entries.dom().finite()
        &&& self.entries.len() <= self.max_entries
    }

    /// A pointer that nothing has been published to.
    pub open spec fn empty(mode: ActiveProjectMode, ttl: int, max_entries: nat) -> Self {
        ActiveState {
            mode,
            single: None,
            entries: Map::empty(),
            ttl: effective_ttl(ttl),
            max_entries: effective_max(max_entries),
        }
    }

    /// What the mode uses of an actor's identity.
    pub open spec fn scoped(self, actor: Identity) -> Identity {
        match self.mode {
            ActiveProjectMode::Single => Identity { user: None, session_id: None },
            ActiveProjectMode::PerSession => Identity {
                user: None,
                session_id: actor.session_id,
            },
            ActiveProjectMode::PerActor => actor,
        }
    }

    /// The key of the actor's own entry; `None` where the actor has no entry
    /// of its own in this mode.
    pub open spec fn key(self, actor: Identity) -> Option<Identity> {
        if self.scoped(actor).is_empty() {
            None
        } else {
            Some(self.scoped(actor))
        }
    }

    /// The one slot holds the pair, and nothing else changes.
    pub open spec fn with_single(self, single: Option<(WorkspaceId, ProjectId)>) -> Self {
        ActiveState { single, ..self }
    }

    /// `post` is this state once the actor has published the pair at `now`:
    /// the one slot holds it, and so does the actor's own entry where it has
    /// one, once the entries that are no longer good have left and before the
    /// cap is applied.
    pub open spec fn published(
        self,
        actor: Identity,
        workspace: WorkspaceId,
        project: ProjectId,
        now: int,
        post: Self,
    ) -> bool {
        &&& post.mode == self.mode
        &&& post.ttl == self.ttl
        &&& post.max_entries == self.max_entries
        &&& post.single == Some((workspace, project))
        &&& match self.key(actor) {
            None => post.entries == self.entries,
            Some(key) => inserted(
                self.entries,
                key,
                Slot { workspace, project, inserted: now },
                self.ttl,
                self.max_entries,
                post.entries,
            ),
        }
    }

    /// No entry was set after `now`.
    pub open spec fn not_before(self, now: int) -> bool {
        none_after(self.entries, now)
    }

    /// The time at which a call takes place whose clock told `reading`: that
    /// time, or that of the latest entry where an entry was set later.
    pub open spec fn at_reading(self, reading: int, now: int) -> bool {
        &&& reading <= now
        &&& self.not_before(now)
        &&& now == reading || exists|k: Identity| #[trigger]
            self.entries.contains_key(k) && self.entries[k].inserted == now
    }

    /// What the actor's own entry holds at `now`.
    pub open spec fn keyed(self, actor: Identity, now: int) -> Option<(WorkspaceId, ProjectId)> {
        match self.key(actor) {
            None => None,
            Some(key) => target(live(self.entries, now, self.ttl), key),
        }
    }

    /// What the actor reads at `now`: its own entry, or else the one slot.
    pub open spec fn lookup(self, actor: Identity, now: int) -> Option<(WorkspaceId, ProjectId)> {
        match self.keyed(actor, now) {
            Some(pair) => Some(pair),
            None => self.single,
        }
    }

    /// This state once the actor has read it at `now`.
    pub open spec fn after_lookup(self, actor: Identity, now: int) -> Self {
        match self.key(actor) {
            None => self,
            Some(_) => ActiveState { entries: live(self.entries, now, self.ttl), ..self },
        }
    }
}

/// The "currently active project" pointer. It starts empty; the hook router
/// fills it as events arrive.
pub struct ActiveProject {
    mode: ActiveProjectMode,
    single: Option<(WorkspaceId, ProjectId)>,
    per_actor: PerActorMap,
    clock: Stopwatch,
}

impl View for ActiveProject {
    type V = ActiveState;

    closed spec fn view(&self) -> ActiveState {
        ActiveState {
            mode: self.mode,
            single: self.single,
            entries: self.per_actor.map(),
            ttl: self.per_actor.lifetime(),
            max_entries: self.per_actor.cap(),
        }
    }
}

impl Default for ActiveProject {
    fn default() -> (r: Self)
        ensures
            r.wf(),
            r.told() == Seq::<u128>::empty(),
            r@ == ActiveState::empty(
                ActiveProjectMode::Single,
                DEFAULT_PER_KEY_TTL as int,
                DEFAULT_MAX_ENTRIES as nat,
            ),
    {
        Self::with_config(ActiveProjectMode::Single, DEFAULT_PER_KEY_TTL, DEFAULT_MAX_ENTRIES)
    }
}

impl ActiveProject {
    /// No key has two entries, and their number does not exceed the cap.
    pub closed spec fn wf(self) -> bool {
        self.per_actor.wf()
    }

    /// The reading of the clock that times are counted from.
    pub closed spec fn epoch(self) -> Instant {
        self.clock.epoch()
    }

    /// Every time that the pointer's clock has told, in order.
    pub closed spec fn told(self) -> Seq<u128> {
        self.clock.told()
    }

    /// An empty pointer in mode `Single`.
    pub fn new() -> (r: Self)
        ensures
            r.wf(),
            r.told() == Seq::<u128>::empty(),
            r@ == ActiveState::empty(
                ActiveProjectMode::Single,
                DEFAULT_PER_KEY_TTL as int,
                DEFAULT_MAX_ENTRIES as nat,
            ),
    {
        Self::with_config(ActiveProjectMode::Single, DEFAULT_PER_KEY_TTL, DEFAULT_MAX_ENTRIES)
    }

    /// An empty pointer in the given mode, with the default time to live and
    /// cap.
    pub fn with_mode(mode: ActiveProjectMode) -> (r: Self)
        ensures
            r.wf(),
            r.told() == Seq::<u128>::empty(),
            r@ == ActiveState::empty(
                mode,
                DEFAULT_PER_KEY_TTL as int,
                DEFAULT_MAX_ENTRIES as nat,
            ),
    {
        Self::with_config(mode, DEFAULT_PER_KEY_TTL, DEFAULT_MAX_ENTRIES)
    }

    /// An empty pointer in the given mode, whose entries live for `ttl`
    /// nanoseconds and number at most `max_entries`. A `ttl` of zero stands
    /// for the default, a `max_entries` of zero for one.
    pub fn with_config(mode: ActiveProjectMode, ttl: u128, max_entries: usize) -> (r: Self)
        ensures
            r.wf(),
            r.told() == Seq::<u128>::empty(),
            r@ == ActiveState::empty(mode, ttl as int, max_entries as nat),
    {
        ActiveProject {
            mode,
            single: None,
            per_actor: PerActorMap::new(ttl, max_entries),
            clock: Stopwatch::start(),
        }
    }

    /// The mode that the pointer was made with.
    pub fn mode(&self) -> (r: ActiveProjectMode)
        ensures
            r == self@.mode,
    {
        self.mode
    }

    /// Nanoseconds since the pointer was made, or the time of the latest entry
    /// where that is later. The clock is read once.
    fn now(&mut self) -> (r: u128)
        requires
            old(self).wf(),
        ensures
            final(self).wf(),
            final(self)@ == old(self)@,
            final(self).epoch() == old(self).epoch(),
            final(self).told().len() == old(self).told().len() + 1,
            final(self).told().drop_last() == old(self).told(),
            old(self)@.at_reading(final(self).told().last() as int, r as int),
    {
        let reading: u128 = self.clock.read().nanos();
        assert(self.clock.told().drop_last() =~= old(self).clock.told());
        self.per_actor.latest(reading)
    }

    /// Publishes the project that the actor is now active in.
    pub fn set_for(&mut self, actor: &ActorKey, workspace_id: WorkspaceId, project_id: ProjectId)
        requires
            old(self).wf(),
        ensures
            final(self).wf(),
            final(self).epoch() == old(self).epoch(),
            final(self).told().len() == old(self).told().len() + 1,
            final(self).told().drop_last() == old(self).told(),
            exists|now: int| #[trigger]
                old(self)@.published(actor@, workspace_id, project_id, now, final(self)@)
                    && old(self)@.at_reading(final(self).told().last() as int, now),
    {
        let now: u128 = self.now();
        self.set_for_at(actor, workspace_id, project_id, now);
        assert(old(self)@.published(actor@, workspace_id, project_id, now as int, self@));
    }

    /// Publishes the project that the actor is active in at `now`.
    pub fn set_for_at(
        &mut self,
        actor: &ActorKey,
        workspace_id: WorkspaceId,
        project_id: ProjectId,
        now: u128,
    )
        requires
            old(self).wf(),
        ensures
            final(self).wf(),
            final(self).epoch() == old(self).epoch(),
            final(self).told() == old(self).told(),
            old(self)@.published(actor@, workspace_id, project_id, now as int, final(self)@),
    {
        self.write_single(workspace_id, project_id);
        if self.mode == ActiveProjectMode::Single || actor.is_empty() {
            return;
        }
        let scoped = self.scoped_key(actor);
        if scoped.is_empty() {
            return;
        }
        self.per_actor.insert(scoped, workspace_id, project_id, now);
    }

    /// The project that the actor is active in, as far as one has been
    /// published: that of the actor's own entry, or else that of the one slot.
    pub fn get_for(&mut self, actor: &ActorKey) -> (r: Option<(WorkspaceId, ProjectId)>)
        requires
            old(self).wf(),
        ensures
            final(self).wf(),
            final(self).epoch() == old(self).epoch(),
            final(self).told().len() == old(self).told().len() + 1,
            final(self).told().drop_last() == old(self).told(),
            exists|now: int|
                r == #[trigger] old(self)@.lookup(actor@, now) && final(self)@
                    == old(self)@.after_lookup(actor@, now) && old(self)@.at_reading(final(self).told().last() as int, now),
    {
        let now: u128 = self.now();
        let r = self.get_for_at(actor, now);
        assert(r == old(self)@.lookup(actor@, now as int));
        r
    }

    /// The project that the actor is active in at `now`.
    pub fn get_for_at(&mut self, actor: &ActorKey, now: u128) -> (r: Option<
        (WorkspaceId, ProjectId),
    >)
        requires
            old(self).wf(),
        ensures
            final(self).wf(),
            final(self).epoch() == old(self).epoch(),
            final(self).told() == old(self).told(),
            r == old(self)@.lookup(actor@, now as int),
            final(self)@ == old(self)@.after_lookup(actor@, now as int),
    {
        match self.keyed_only_get_at(actor, now) {
            Some(found) => Some(found),
            None => self.read_single(),
        }
    }

    /// What the mode uses of the actor's identity.
    pub fn scoped_key(&self, actor: &ActorKey) -> (r: ActorKey)
        ensures
            r@ == self@.scoped(actor@),
    {
        match self.mode {
            ActiveProjectMode::Single => ActorKey { user: None, session_id: None },
            ActiveProjectMode::PerSession => ActorKey {
                user: None,
                session_id: copy_text(&actor.session_id),
            },
            ActiveProjectMode::PerActor => actor.clone(),
        }
    }

    fn write_single(&mut self, ws: WorkspaceId, proj: ProjectId)
        requires
            old(self).wf(),
        ensures
            final(self).wf(),
            final(self).epoch() == old(self).epoch(),
            final(self).told() == old(self).told(),
            final(self)@ == old(self)@.with_single(Some((ws, proj))),
    {
        self.single = Some((ws, proj));
    }

    fn read_single(&self) -> (r: Option<(WorkspaceId, ProjectId)>)
        ensures
            r == self@.single,
    {
        self.single
    }

    /// Writes the one slot, and no entry.
    pub fn set(&mut self, workspace_id: WorkspaceId, project_id: ProjectId)
        requires
            old(self).wf(),
        ensures
            final(self).wf(),
            final(self).epoch() == old(self).epoch(),
            final(self).told() == old(self).told(),
            final(self)@ == old(self)@.with_single(Some((workspace_id, project_id))),
    {
        self.write_single(workspace_id, project_id);
    }

    /// Reads the one slot.
    pub fn get(&self) -> (r: Option<(WorkspaceId, ProjectId)>)
        ensures
            r == self@.single,
    {
        self.read_single()
    }

    /// Forgets the active project of every caller: the one slot and all
    /// entries.
    pub fn clear(&mut self)
        requires
            old(self).wf(),
        ensures
            final(self).wf(),
            final(self).epoch() == old(self).epoch(),
            final(self).told() == old(self).told(),
            final(self)@ == old(self)@.cleared(),
    {
        self.single = None;
        self.per_actor.entries.clear();
    }

    /// What the actor's own entry holds, without falling back to the one slot.
    pub fn keyed_only_get(&mut self, actor: &ActorKey) -> (r: Option<(WorkspaceId, ProjectId)>)
        requires
            old(self).wf(),
        ensures
            final(self).wf(),
            final(self).epoch() == old(self).epoch(),
            final(self).told().len() == old(self).told().len() + 1,
            final(self).told().drop_last() == old(self).told(),
            exists|now: int|
                r == #[trigger] old(self)@.keyed(actor@, now) && final(self)@
                    == old(self)@.after_lookup(actor@, now) && old(self)@.at_reading(final(self).told().last() as int, now),
    {
        let now: u128 = self.now();
        let r = self.keyed_only_get_at(actor, now);
        assert(r == old(self)@.keyed(actor@, now as int));
        r
    }

    /// What the actor's own entry holds at `now`.
    pub fn keyed_only_get_at(&mut self, actor: &ActorKey, now: u128) -> (r: Option<
        (WorkspaceId, ProjectId),
    >)
        requires
            old(self).wf(),
        ensures
            final(self).wf(),
            final(self).epoch() == old(self).epoch(),
            final(self).told() == old(self).told(),
            r == old(self)@.keyed(actor@, now as int),
            final(self)@ == old(self)@.after_lookup(actor@, now as int),
    {
        if self.mode == ActiveProjectMode::Single || actor.is_empty() {
            return None;
        }
        let scoped = self.scoped_key(actor);
        if scoped.is_empty() {
            return None;
        }
        self.per_actor.get(&scoped, now)
    }
}

impl ActiveState {
    /// Nothing is published any more.
    pub open spec fn cleared(self) -> Self {
        ActiveState { single: None, entries: Map::empty(), ..self }
    }
}

/// There are never more entries than the cap.
pub proof fn law_entries_are_bounded(m: PerActorMap)
    requires
        m.wf(),
    ensures
        m.map().dom().finite(),
        m.map().len() <= m.cap(),
        m.cap() >= 1,
        m.lifetime() > 0,
{
    lemma_map_of(m.entries@);
}

/// A well-formed pointer holds no more entries than its cap.
pub proof fn law_memory_is_bounded(p: ActiveProject)
    requires
        p.wf(),
    ensures
        p@.wf(),
{
    law_entries_are_bounded(p.per_actor);
}

} // verus!
