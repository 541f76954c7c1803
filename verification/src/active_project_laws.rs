//! What holds of the active-project pointer over several calls.

use crate::active_project::{
    capped, inserted, is_live, live, none_after, target, ActiveProjectMode, ActiveState, ActorKey, Identity,
    Slot, DEFAULT_MAX_ENTRIES, DEFAULT_PER_KEY_TTL,
};
use crate::ids::{ProjectId, WorkspaceId};
use vstd::prelude::*;

verus! {

/// Publishing keeps the number of entries within the cap.
pub proof fn law_publishing_keeps_the_bound(
    pre: ActiveState,
    actor: Identity,
    workspace: WorkspaceId,
    project: ProjectId,
    now: int,
    post: ActiveState,
)
    requires
        pre.wf(),
        pre.published(actor, workspace, project, now, post),
    ensures
        post.wf(),
{
}

/// Reading keeps the number of entries within the cap.
pub proof fn law_reading_keeps_the_bound(pre: ActiveState, actor: Identity, now: int)
    requires
        pre.wf(),
    ensures
        pre.after_lookup(actor, now).wf(),
        pre.after_lookup(actor, now).entries.len() <= pre.entries.len(),
{
    let kept = live(pre.entries, now, pre.ttl);
    assert(kept.dom().subset_of(pre.entries.dom()));
    vstd::set_lib::lemma_len_subset(kept.dom(), pre.entries.dom());
}

/// What an actor has published it reads back, whatever time has passed: from
/// its own entry while that is there, and from the one slot after that.
pub proof fn law_read_your_write(
    pre: ActiveState,
    actor: Identity,
    workspace: WorkspaceId,
    project: ProjectId,
    now: int,
    post: ActiveState,
    later: int,
)
    requires
        pre.published(actor, workspace, project, now, post),
    ensures
        post.lookup(actor, later) == Some((workspace, project)),
{
    if let Some(key) = pre.key(actor) {
        let full = live(pre.entries, now, pre.ttl).insert(
            key,
            Slot { workspace, project, inserted: now },
        );
        if post.entries.contains_key(key) {
            assert(full.contains_key(key));
        }
    }
}

/// In every mode the one slot holds what was published last, by whomever.
pub proof fn law_publishing_writes_the_one_slot(
    pre: ActiveState,
    actor: Identity,
    workspace: WorkspaceId,
    project: ProjectId,
    now: int,
    post: ActiveState,
)
    requires
        pre.published(actor, workspace, project, now, post),
    ensures
        post.single == Some((workspace, project)),
        forall|anyone: Identity, later: int|
            anyone.is_empty() ==> #[trigger] post.lookup(anyone, later) == Some(
                (workspace, project),
            ),
{
}

/// In mode `Single` every actor reads the last write, whoever made it.
pub proof fn law_single_mode_ignores_actors(
    pre: ActiveState,
    actor: Identity,
    workspace: WorkspaceId,
    project: ProjectId,
    now: int,
    post: ActiveState,
    reader: Identity,
    later: int,
)
    requires
        pre.mode == ActiveProjectMode::Single,
        pre.published(actor, workspace, project, now, post),
    ensures
        post.lookup(reader, later) == Some((workspace, project)),
        post.entries == pre.entries,
{
}

/// Mode `PerSession` does not look at the user: two actors of one session read
/// the same.
pub proof fn law_per_session_ignores_the_user(
    state: ActiveState,
    a: Identity,
    b: Identity,
    now: int,
)
    requires
        state.mode == ActiveProjectMode::PerSession,
        a.session_id == b.session_id,
    ensures
        state.lookup(a, now) == state.lookup(b, now),
        state.key(a) == state.key(b),
{
}

/// In mode `PerActor` two known actors share an entry only if they agree in
/// user and session.
pub proof fn law_per_actor_keeps_actors_apart(state: ActiveState, a: Identity, b: Identity)
    requires
        state.mode == ActiveProjectMode::PerActor,
        !a.is_empty(),
        !b.is_empty(),
    ensures
        state.key(a) is Some,
        state.key(a) == state.key(b) <==> a == b,
{
}

/// What is read comes from the reader's own entry, or else from the one slot:
/// never from the entry of another actor, and never from an entry that is no
/// longer good.
pub proof fn law_no_wrong_actor(state: ActiveState, actor: Identity, now: int)
    ensures
        state.lookup(actor, now) == state.single || (state.key(actor) matches Some(key)
            && state.entries.contains_key(key) && is_live(state.entries[key], now, state.ttl)
            && state.lookup(actor, now) == Some(
            (state.entries[key].workspace, state.entries[key].project),
        )),
        state.key(actor) is None ==> state.lookup(actor, now) == state.single,
        state.key(actor) matches Some(key) && (!state.entries.contains_key(key) || !is_live(
            state.entries[key],
            now,
            state.ttl,
        )) ==> state.lookup(actor, now) == state.single,
{
}

/// The entries once `writer` has published at `now`, before the cap is applied.
pub open spec fn before_the_cap(
    pre: ActiveState,
    writer: Identity,
    workspace: WorkspaceId,
    project: ProjectId,
    now: int,
) -> Map<Identity, Slot> {
    match pre.key(writer) {
        Some(own) => live(pre.entries, now, pre.ttl).insert(
            own,
            Slot { workspace, project, inserted: now },
        ),
        None => pre.entries,
    }
}

/// What one actor publishes leaves the good entry of another alone, as long as
/// there is room or some other entry is older: the other reads what it read
/// before.
pub proof fn law_actors_are_isolated(
    pre: ActiveState,
    writer: Identity,
    workspace: WorkspaceId,
    project: ProjectId,
    now: int,
    post: ActiveState,
    reader: Identity,
    later: int,
)
    requires
        pre.wf(),
        pre.published(writer, workspace, project, now, post),
        pre.key(writer) != pre.key(reader),
        pre.key(reader) matches Some(key) && pre.entries.contains_key(key) && is_live(
            pre.entries[key],
            now,
            pre.ttl,
        ) && is_live(pre.entries[key], later, pre.ttl),
        ({
            let full = before_the_cap(pre, writer, workspace, project, now);
            full.len() <= pre.max_entries || exists|d: Identity| #[trigger]
                full.contains_key(d) && full[d].inserted < pre.entries[pre.key(reader)->0].inserted
        }),
    ensures
        post.keyed(reader, later) is Some,
        post.keyed(reader, later) == pre.keyed(reader, later),
        post.lookup(reader, later) == pre.lookup(reader, later),
{
    let key = pre.key(reader)->0;
    if let Some(own) = pre.key(writer) {
        let kept = live(pre.entries, now, pre.ttl);
        let full = before_the_cap(pre, writer, workspace, project, now);
        let after = post.entries;
        assert(kept.dom().subset_of(pre.entries.dom()));
        vstd::set_lib::lemma_len_subset(kept.dom(), pre.entries.dom());
        assert(full.len() <= pre.max_entries + 1);
        assert(full.contains_key(key));
        assert(full[key] == pre.entries[key]);
        if full.len() <= pre.max_entries {
            lemma_nothing_leaves(full, after, pre.max_entries);
        } else {
            let d = choose|d: Identity| #[trigger]
                full.contains_key(d) && full[d].inserted < pre.entries[key].inserted;
            if !after.contains_key(key) {
                // Then the older entry has left as well, and that is one too many.
                assert(!after.contains_key(d));
                assert forall|k: Identity| after.contains_key(k) implies full.contains_key(k) by {
                    assert(after.dom().contains(k) && full.dom().contains(k));
                }
                let rest = full.dom().remove(key).remove(d);
                assert(after.dom().subset_of(rest));
                vstd::set_lib::lemma_len_subset(after.dom(), rest);
                assert(false);
            }
            assert(after.dom().contains(key) && full.dom().contains(key));
            assert(after[key] == full[key]);
        }
    }
}

proof fn lemma_nothing_leaves(before: Map<Identity, Slot>, after: Map<Identity, Slot>, max: nat)
    requires
        before.dom().finite(),
        before.len() <= max,
        capped(before, after, max),
    ensures
        after == before,
{
    assert forall|k: Identity| after.contains_key(k) implies before.contains_key(k) && after[k]
        == before[k] by {
        assert(after.dom().contains(k) && before.dom().contains(k));
    }
    assert(after.dom().subset_of(before.dom()));
    vstd::set_lib::lemma_subset_equality(after.dom(), before.dom());
    assert(after =~= before);
}

/// When a new entry exceeds the cap, one entry leaves, and none that stays is
/// older than it; the new entry stays where no other was set later.
pub proof fn law_the_oldest_entry_leaves(
    pre: ActiveState,
    actor: Identity,
    workspace: WorkspaceId,
    project: ProjectId,
    now: int,
    post: ActiveState,
)
    requires
        pre.wf(),
        pre.published(actor, workspace, project, now, post),
        pre.key(actor) matches Some(key) && !pre.entries.contains_key(key),
        pre.entries.len() == pre.max_entries,
        forall|k: Identity| #[trigger]
            pre.entries.contains_key(k) ==> is_live(pre.entries[k], now, pre.ttl)
                && pre.entries[k].inserted <= now,
    ensures
        post.entries.contains_key(pre.key(actor)->0),
        post.entries.len() == pre.max_entries,
        exists|gone: Identity|
            {
                &&& #[trigger] pre.entries.contains_key(gone)
                &&& post.entries == pre.entries.remove(gone).insert(
                    pre.key(actor)->0,
                    Slot { workspace, project, inserted: now },
                )
                &&& forall|k: Identity| #[trigger]
                    pre.entries.contains_key(k) ==> pre.entries[gone].inserted
                        <= pre.entries[k].inserted
            },
{
    let key = pre.key(actor)->0;
    let slot = Slot { workspace, project, inserted: now };
    assert(live(pre.entries, now, pre.ttl) =~= pre.entries);
    let full = pre.entries.insert(key, slot);
    let after = post.entries;
    assert(full.len() == pre.max_entries + 1);
    assert forall|k: Identity| after.contains_key(k) implies full.contains_key(k) && after[k]
        == full[k] by {
        assert(after.dom().contains(k) && full.dom().contains(k));
    }
    // Some key of the full map is not among those that stay.
    assert(exists|g: Identity| full.contains_key(g) && !after.contains_key(g)) by {
        if forall|g: Identity| full.contains_key(g) ==> after.contains_key(g) {
            assert(after.dom() =~= full.dom());
        }
    }
    let gone = choose|g: Identity| full.contains_key(g) && !after.contains_key(g);
    // Whatever stays has the size of the full map without it.
    assert(after.dom().subset_of(full.dom().remove(gone)));
    assert(full.dom().remove(gone).len() == pre.max_entries);
    vstd::set_lib::lemma_subset_equality(after.dom(), full.dom().remove(gone));
    assert(after =~= full.remove(gone));
    assert(pre.not_before(now));
    assert(gone != key);
    assert(pre.entries.contains_key(gone));
    assert forall|k: Identity| #[trigger] pre.entries.contains_key(k) implies pre.entries[gone].inserted
        <= pre.entries[k].inserted by {
        if k != gone {
            assert(after.contains_key(k));
            assert(full[gone].inserted <= full[k].inserted);
        }
    }
    assert(after =~= pre.entries.remove(gone).insert(key, slot));
}

/// What setting an entry does, where none was set later: the entry is there,
/// those that are left are good and otherwise as before, and at most one good
/// entry of another key leaves. It is one of the oldest, and none leaves where
/// the key had a good entry already or there was room.
pub proof fn law_inserting_sets_one_entry(
    before: Map<Identity, Slot>,
    key: Identity,
    slot: Slot,
    ttl: int,
    max: nat,
    left: Map<Identity, Slot>,
)
    requires
        before.dom().finite(),
        before.len() <= max,
        max >= 1,
        ttl > 0,
        none_after(before, slot.inserted),
        inserted(before, key, slot, ttl, max, left),
    ensures
        left.contains_key(key),
        left[key] == slot,
        left.len() <= max,
        forall|k: Identity| #[trigger]
            left.contains_key(k) ==> is_live(left[k], slot.inserted, ttl),
        forall|k: Identity| #[trigger]
            left.contains_key(k) && k != key ==> before.contains_key(k) && left[k] == before[k],
        forall|a: Identity, b: Identity|
            #![trigger left.contains_key(a), left.contains_key(b)]
            dropped_good(before, slot.inserted, ttl, left, a) && dropped_good(
                before,
                slot.inserted,
                ttl,
                left,
                b,
            ) ==> a == b,
        live(before, slot.inserted, ttl).contains_key(key) || live(
            before,
            slot.inserted,
            ttl,
        ).len() < max ==> forall|k: Identity|
            !#[trigger] dropped_good(before, slot.inserted, ttl, left, k),
        forall|gone: Identity, k: Identity|
            #![trigger left.contains_key(gone), before.contains_key(k)]
            dropped_good(before, slot.inserted, ttl, left, gone) && before.contains_key(k)
                && is_live(before[k], slot.inserted, ttl) ==> before[gone].inserted
                <= before[k].inserted,
{
    let now = slot.inserted;
    let good = live(before, now, ttl);
    let full = good.insert(key, slot);
    assert(good.dom().subset_of(before.dom()));
    vstd::set_lib::lemma_len_subset(good.dom(), before.dom());
    assert(full.dom().finite());
    assert(full.len() <= max + 1);
    assert forall|k: Identity| #[trigger] left.contains_key(k) implies full.contains_key(k)
        && left[k] == full[k] by {
        assert(left.dom().contains(k) && full.dom().contains(k));
    }
    if full.len() <= max {
        lemma_nothing_leaves(full, left, max);
    } else {
        assert forall|a: Identity, b: Identity|
            #![trigger left.contains_key(a), left.contains_key(b)]
            full.contains_key(a) && !left.contains_key(a) && full.contains_key(b)
                && !left.contains_key(b) implies a == b by {
            if a != b {
                let rest = full.dom().remove(a).remove(b);
                assert(left.dom().subset_of(rest));
                vstd::set_lib::lemma_len_subset(left.dom(), rest);
            }
        }
        assert forall|gone: Identity, k: Identity|
            #![trigger left.contains_key(gone), before.contains_key(k)]
            dropped_good(before, now, ttl, left, gone) && before.contains_key(k) && is_live(
                before[k],
                now,
                ttl,
            ) implies before[gone].inserted <= before[k].inserted by {
            assert(good.contains_key(gone) && good.contains_key(k));
            assert(full.contains_key(gone) && full.contains_key(k));
            if k == key {
                // A good entry under the same key leaves the size as it was.
                assert(full.dom() =~= good.dom());
            } else if left.contains_key(k) {
                assert(full[gone].inserted <= full[k].inserted);
            } else {
                assert(gone == k);
            }
        }
        if good.contains_key(key) {
            assert(full.dom() =~= good.dom());
        }
    }
}

/// The entry of `k` was good and has left.
pub open spec fn dropped_good(
    before: Map<Identity, Slot>,
    now: int,
    ttl: int,
    left: Map<Identity, Slot>,
    k: Identity,
) -> bool {
    before.contains_key(k) && is_live(before[k], now, ttl) && !left.contains_key(k)
}

/// What publishing does to the entries, where none was set later: the actor's
/// own entry holds the pair, those that are left are good and otherwise as
/// before, and at most one good entry of another actor leaves. It is one of the
/// oldest, and none leaves where the actor had a good entry already or there
/// was room.
pub proof fn law_publishing_sets_one_entry(
    pre: ActiveState,
    actor: Identity,
    workspace: WorkspaceId,
    project: ProjectId,
    now: int,
    post: ActiveState,
)
    requires
        pre.wf(),
        pre.published(actor, workspace, project, now, post),
        pre.key(actor) is Some,
        pre.not_before(now),
    ensures
        ({
            let key = pre.key(actor)->0;
            let left = post.entries;
            &&& left.contains_key(key)
            &&& left[key] == (Slot { workspace, project, inserted: now })
            &&& left.len() <= pre.max_entries
            &&& forall|k: Identity| #[trigger]
                left.contains_key(k) ==> is_live(left[k], now, pre.ttl)
            &&& forall|k: Identity| #[trigger]
                left.contains_key(k) && k != key ==> pre.entries.contains_key(k) && left[k]
                    == pre.entries[k]
            &&& forall|a: Identity, b: Identity|
                #![trigger left.contains_key(a), left.contains_key(b)]
                dropped_good(pre.entries, now, pre.ttl, left, a) && dropped_good(
                    pre.entries,
                    now,
                    pre.ttl,
                    left,
                    b,
                ) ==> a == b
            &&& live(pre.entries, now, pre.ttl).contains_key(key) || live(
                pre.entries,
                now,
                pre.ttl,
            ).len() < pre.max_entries ==> forall|k: Identity|
                !#[trigger] dropped_good(pre.entries, now, pre.ttl, left, k)
            &&& forall|gone: Identity, k: Identity|
                #![trigger left.contains_key(gone), pre.entries.contains_key(k)]
                dropped_good(pre.entries, now, pre.ttl, left, gone) && pre.entries.contains_key(k)
                    && is_live(pre.entries[k], now, pre.ttl) ==> pre.entries[gone].inserted
                    <= pre.entries[k].inserted
        }),
{
    law_inserting_sets_one_entry(
        pre.entries,
        pre.key(actor)->0,
        Slot { workspace, project, inserted: now },
        pre.ttl,
        pre.max_entries,
        post.entries,
    );
}

/// What a key is read as: what its entry holds while that is good. The read
/// leaves every good entry as it is, with its time.
pub proof fn law_a_good_entry_is_read(
    entries: Map<Identity, Slot>,
    key: Identity,
    now: int,
    ttl: int,
)
    ensures
        target(live(entries, now, ttl), key) == if entries.contains_key(key) && is_live(
            entries[key],
            now,
            ttl,
        ) {
            Some((entries[key].workspace, entries[key].project))
        } else {
            None
        },
        forall|k: Identity| #[trigger]
            entries.contains_key(k) && is_live(entries[k], now, ttl) ==> live(
                entries,
                now,
                ttl,
            ).contains_key(k) && live(entries, now, ttl)[k] == entries[k],
{
}

/// The entries after reads at these times.
pub open spec fn read_at(entries: Map<Identity, Slot>, times: Seq<int>, ttl: int) -> Map<
    Identity,
    Slot,
>
    decreases times.len(),
{
    if times.len() == 0 {
        entries
    } else {
        live(read_at(entries, times.drop_last(), ttl), times.last(), ttl)
    }
}

/// No read prolongs the life of an entry: once it has lived for its time to
/// live it is gone, however often it was read before.
pub proof fn law_no_read_prolongs_an_entry(
    entries: Map<Identity, Slot>,
    times: Seq<int>,
    ttl: int,
    key: Identity,
    now: int,
)
    requires
        entries.contains_key(key) ==> entries[key].inserted + ttl <= now,
    ensures
        target(live(read_at(entries, times, ttl), now, ttl), key) is None,
        forall|k: Identity| #[trigger]
            read_at(entries, times, ttl).contains_key(k) ==> entries.contains_key(k) && read_at(
                entries,
                times,
                ttl,
            )[k] == entries[k],
    decreases times.len(),
{
    if times.len() > 0 {
        law_no_read_prolongs_an_entry(entries, times.drop_last(), ttl, key, now);
        let before = read_at(entries, times.drop_last(), ttl);
        assert forall|k: Identity| #[trigger] read_at(entries, times, ttl).contains_key(
            k,
        ) implies entries.contains_key(k) && read_at(entries, times, ttl)[k] == entries[k] by {
            assert(before.contains_key(k));
        }
    }
}

/// The state after these reads, each by an actor at a time.
pub open spec fn after_reads(state: ActiveState, reads: Seq<(Identity, int)>) -> ActiveState
    decreases reads.len(),
{
    if reads.len() == 0 {
        state
    } else {
        after_reads(state, reads.drop_last()).after_lookup(reads.last().0, reads.last().1)
    }
}

/// An actor's own entry is read exactly while it is good, and the read leaves
/// every good entry as it is, with its time.
pub proof fn law_reading_changes_no_good_entry(state: ActiveState, actor: Identity, now: int)
    ensures
        state.key(actor) matches Some(key) ==> state.keyed(actor, now) == if state.entries.contains_key(
            key,
        ) && is_live(state.entries[key], now, state.ttl) {
            Some((state.entries[key].workspace, state.entries[key].project))
        } else {
            None
        },
        state.key(actor) is Some ==> state.after_lookup(actor, now).entries == live(
            state.entries,
            now,
            state.ttl,
        ),
        forall|k: Identity| #[trigger]
            state.entries.contains_key(k) && is_live(state.entries[k], now, state.ttl)
                ==> state.after_lookup(actor, now).entries.contains_key(k)
                && state.after_lookup(actor, now).entries[k] == state.entries[k],
{
}

/// No read prolongs the life of an entry: once it has lived for its time to
/// live it is not read any more, however often it was read before.
pub proof fn law_reading_prolongs_nothing(
    state: ActiveState,
    reads: Seq<(Identity, int)>,
    actor: Identity,
    now: int,
)
    requires
        state.key(actor) matches Some(key) && state.entries.contains_key(key)
            && state.entries[key].inserted + state.ttl <= now,
    ensures
        after_reads(state, reads).keyed(actor, now) is None,
{
    lemma_reads_only_drop(state, reads);
}

proof fn lemma_reads_only_drop(state: ActiveState, reads: Seq<(Identity, int)>)
    ensures
        after_reads(state, reads).mode == state.mode,
        after_reads(state, reads).ttl == state.ttl,
        forall|k: Identity| #[trigger]
            after_reads(state, reads).entries.contains_key(k) ==> state.entries.contains_key(k)
                && after_reads(state, reads).entries[k] == state.entries[k],
    decreases reads.len(),
{
    if reads.len() > 0 {
        lemma_reads_only_drop(state, reads.drop_last());
        let before = after_reads(state, reads.drop_last());
        let after = after_reads(state, reads);
        assert forall|k: Identity| #[trigger] after.entries.contains_key(
            k,
        ) implies state.entries.contains_key(k) && after.entries[k] == state.entries[k] by {
            assert(before.entries.contains_key(k));
        }
    }
}

/// What the mode uses of an identity: all of it, its session, or nothing; and
/// what is left of that when it is asked again is the same.
pub proof fn law_scoping(state: ActiveState, a: Identity, b: Identity)
    ensures
        state.mode == ActiveProjectMode::PerActor ==> state.scoped(a) == a,
        state.mode == ActiveProjectMode::PerSession ==> state.scoped(a) == (Identity {
            user: None,
            session_id: a.session_id,
        }),
        state.mode == ActiveProjectMode::PerSession ==> (state.scoped(a) == state.scoped(b)
            <==> a.session_id == b.session_id),
        state.mode == ActiveProjectMode::Single ==> state.scoped(a).is_empty(),
        state.scoped(state.scoped(a)) == state.scoped(a),
{
}

/// An entry that has lived for its time to live no longer reaches any reader,
/// and the next keyed read drops it.
pub proof fn law_expired_entries_leave(state: ActiveState, actor: Identity, now: int)
    requires
        state.key(actor) matches Some(key) && state.entries.contains_key(key)
            && state.entries[key].inserted + state.ttl <= now,
    ensures
        state.keyed(actor, now) is None,
        state.lookup(actor, now) == state.single,
        !state.after_lookup(actor, now).entries.contains_key(state.key(actor)->0),
{
}

/// After the pointer has been cleared nobody reads anything.
pub proof fn law_clear_forgets_everything(state: ActiveState, actor: Identity, now: int)
    ensures
        state.cleared().lookup(actor, now) is None,
        state.cleared().single is None,
        state.cleared().keyed(actor, now) is None,
{
}

/// A new pointer is empty for everybody.
pub proof fn law_starts_empty(
    mode: ActiveProjectMode,
    ttl: int,
    max_entries: nat,
    actor: Identity,
    now: int,
)
    requires
        ttl >= 0,
    ensures
        ActiveState::empty(mode, ttl, max_entries).wf(),
        ActiveState::empty(mode, ttl, max_entries).lookup(actor, now) is None,
{
}

/// A clock reading says when a call takes place: never before an entry that is
/// there, at the reading itself where no entry is later, and at no other time.
pub proof fn law_when_a_call_takes_place(state: ActiveState, reading: int, a: int, b: int)
    requires
        state.at_reading(reading, a),
    ensures
        a >= reading,
        state.not_before(a),
        state.not_before(reading) ==> a == reading,
        state.at_reading(reading, b) ==> b == a,
{
}

/// An entry is good from when it is set until it has lived for its time to live,
/// and not any longer.
pub proof fn law_how_long_an_entry_is_good(slot: Slot, now: int, earlier: int, ttl: int)
    requires
        ttl > 0,
    ensures
        is_live(slot, slot.inserted, ttl),
        is_live(slot, slot.inserted + ttl - 1, ttl),
        !is_live(slot, slot.inserted + ttl, ttl),
        earlier <= now && is_live(slot, now, ttl) ==> is_live(slot, earlier, ttl),
        earlier <= now && !is_live(slot, earlier, ttl) ==> !is_live(slot, now, ttl),
{
}

/// Whom no entry is kept for: in mode `Single` anybody, in mode `PerSession`
/// those without a session, in mode `PerActor` those without any identity.
pub proof fn law_who_has_an_entry(state: ActiveState, actor: Identity)
    ensures
        state.key(actor) is Some <==> match state.mode {
            ActiveProjectMode::Single => false,
            ActiveProjectMode::PerSession => actor.session_id is Some,
            ActiveProjectMode::PerActor => actor.user is Some || actor.session_id is Some,
        },
        state.key(actor) matches Some(key) ==> key.session_id == actor.session_id && key.user
            == match state.mode {
            ActiveProjectMode::PerActor => actor.user,
            _ => None,
        },
        actor.is_empty() <==> actor.user is None && actor.session_id is None,
{
}

/// An actor is what its user and its session are, each where it is known.
pub proof fn law_who_an_actor_is(a: ActorKey)
    ensures
        a.user matches Some(u) ==> a@.user == Some(u@),
        a.user is None ==> a@.user is None,
        a.session_id matches Some(s) ==> a@.session_id == Some(s@),
        a.session_id is None ==> a@.session_id is None,
        a@.is_empty() <==> a.user is None && a.session_id is None,
{
}

/// No call changes the mode, the time to live or the cap, and reading does not
/// change the one slot.
pub proof fn law_what_no_call_changes(
    pre: ActiveState,
    actor: Identity,
    workspace: WorkspaceId,
    project: ProjectId,
    now: int,
    post: ActiveState,
)
    requires
        ({
            ||| pre.published(actor, workspace, project, now, post)
            ||| post == pre.after_lookup(actor, now)
            ||| post == pre.with_single(Some((workspace, project)))
            ||| post == pre.cleared()
        }),
    ensures
        post.mode == pre.mode,
        post.ttl == pre.ttl,
        post.max_entries == pre.max_entries,
        pre.after_lookup(actor, now).single == pre.single,
        pre.with_single(Some((workspace, project))).single == Some((workspace, project)),
        pre.cleared().entries == Map::<Identity, Slot>::empty(),
{
}

/// What a pointer is made with: the mode that was asked for, the time to live and
/// the cap likewise, but an hour in place of no time to live and one entry in
/// place of none.
pub proof fn law_what_a_pointer_is_made_with(
    mode: ActiveProjectMode,
    ttl: int,
    max_entries: nat,
)
    ensures
        ActiveState::empty(mode, ttl, max_entries).mode == mode,
        ttl != 0 ==> ActiveState::empty(mode, ttl, max_entries).ttl == ttl,
        ActiveState::empty(mode, 0, max_entries).ttl == 3_600 * 1_000_000_000,
        max_entries >= 1 ==> ActiveState::empty(mode, ttl, max_entries).max_entries == max_entries,
        ActiveState::empty(mode, ttl, 0).max_entries == 1,
        DEFAULT_PER_KEY_TTL == 3_600 * 1_000_000_000,
        DEFAULT_MAX_ENTRIES == 4096,
{
}

/// Writing the one slot reaches every reader without a good entry of its own,
/// and changes no entry.
pub proof fn law_set_touches_the_one_slot_only(
    state: ActiveState,
    pair: (WorkspaceId, ProjectId),
    actor: Identity,
    now: int,
)
    ensures
        state.with_single(Some(pair)).entries == state.entries,
        state.with_single(Some(pair)).lookup(actor, now) == match state.keyed(actor, now) {
            Some(own) => Some(own),
            None => Some(pair),
        },
{
    assert(target(live(state.entries, now, state.ttl), state.scoped(actor)) == target(
        live(state.with_single(Some(pair)).entries, now, state.ttl),
        state.scoped(actor),
    ));
}

} // verus!
