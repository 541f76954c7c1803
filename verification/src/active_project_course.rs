//! What holds of the active-project pointer over a whole course of calls.

use crate::active_project::{is_live, ActiveProjectMode, ActiveState, Identity, Slot};
use crate::active_project_laws::before_the_cap;
use crate::ids::{ProjectId, WorkspaceId};
use vstd::prelude::*;

verus! {

/// A call on the pointer. Those that read the clock are given the time that
/// they read.
pub enum Call {
    SetFor { actor: Identity, workspace: WorkspaceId, project: ProjectId, now: int },
    GetFor { actor: Identity, now: int },
    Get,
    SetSlot { workspace: WorkspaceId, project: ProjectId },
    Clear,
}

impl Call {
    /// What the call makes of `pre`.
    pub open spec fn leads(self, pre: ActiveState, post: ActiveState) -> bool {
        match self {
            Call::SetFor { actor, workspace, project, now } => pre.published(
                actor,
                workspace,
                project,
                now,
                post,
            ),
            Call::GetFor { actor, now } => post == pre.after_lookup(actor, now),
            Call::Get => post == pre,
            Call::SetSlot { workspace, project } => post == pre.with_single(
                Some((workspace, project)),
            ),
            Call::Clear => post == pre.cleared(),
        }
    }

    /// The call was made no later than `now`.
    pub open spec fn made_until(self, now: int) -> bool {
        match self {
            Call::SetFor { now: at, .. } => at <= now,
            Call::GetFor { now: at, .. } => at <= now,
            _ => true,
        }
    }
}

/// The calls lead from an empty pointer through these states, one more than
/// there are calls.
pub open spec fn is_course(states: Seq<ActiveState>, calls: Seq<Call>) -> bool {
    &&& states.len() == calls.len() + 1
    &&& states[0].single is None
    &&& states[0].entries == Map::<Identity, Slot>::empty()
    &&& forall|i: int|
        0 <= i < calls.len() ==> (#[trigger] calls[i]).leads(states[i], states[i + 1])
}

/// What was last published under `key` since the last call of `clear`. The mode
/// of `shape` says what is used of an actor's identity.
pub open spec fn last_published(
    calls: Seq<Call>,
    shape: ActiveState,
    key: Identity,
) -> Option<Slot>
    decreases calls.len(),
{
    if calls.len() == 0 {
        None
    } else {
        match calls.last() {
            Call::Clear => None,
            Call::SetFor { actor, workspace, project, now } => if shape.key(actor) == Some(key) {
                Some(Slot { workspace, project, inserted: now })
            } else {
                last_published(calls.drop_last(), shape, key)
            },
            _ => last_published(calls.drop_last(), shape, key),
        }
    }
}

/// What was last published by anyone since the last call of `clear`.
pub open spec fn last_of_all(calls: Seq<Call>) -> Option<(WorkspaceId, ProjectId)>
    decreases calls.len(),
{
    if calls.len() == 0 {
        None
    } else {
        match calls.last() {
            Call::Clear => None,
            Call::SetFor { workspace, project, .. } => Some((workspace, project)),
            Call::SetSlot { workspace, project } => Some((workspace, project)),
            Call::GetFor { .. } | Call::Get => last_of_all(calls.drop_last()),
        }
    }
}

/// The cap made the entry of `key` leave when this call led from `pre` to
/// `post`.
pub open spec fn cap_evicts(
    pre: ActiveState,
    call: Call,
    post: ActiveState,
    key: Identity,
) -> bool {
    match call {
        Call::SetFor { actor, workspace, project, now } => before_the_cap(
            pre,
            actor,
            workspace,
            project,
            now,
        ).contains_key(key) && !post.entries.contains_key(key),
        _ => false,
    }
}

/// The cap has made the entry of `key` leave since it was last published.
pub open spec fn evicted(states: Seq<ActiveState>, calls: Seq<Call>, key: Identity) -> bool
    decreases calls.len(),
{
    if calls.len() == 0 {
        false
    } else {
        let n = calls.len() as int;
        cap_evicts(states[n - 1], calls.last(), states[n], key) || match calls.last() {
            Call::Clear => false,
            Call::SetFor { actor, .. } => states[0].key(actor) != Some(key) && evicted(
                states.drop_last(),
                calls.drop_last(),
                key,
            ),
            _ => evicted(states.drop_last(), calls.drop_last(), key),
        }
    }
}

proof fn lemma_shorter_course(states: Seq<ActiveState>, calls: Seq<Call>)
    requires
        is_course(states, calls),
        calls.len() > 0,
    ensures
        is_course(states.drop_last(), calls.drop_last()),
        calls.last().leads(states.drop_last().last(), states.last()),
{
    let n = calls.len() as int;
    assert(calls[n - 1].leads(states[n - 1], states[n]));
    assert forall|i: int| 0 <= i < calls.drop_last().len() implies (
    #[trigger] calls.drop_last()[i]).leads(
        states.drop_last()[i],
        states.drop_last()[i + 1],
    ) by {
        assert(calls[i].leads(states[i], states[i + 1]));
    }
}

proof fn lemma_course(states: Seq<ActiveState>, calls: Seq<Call>)
    requires
        is_course(states, calls),
    ensures
        states.last().mode == states[0].mode,
        states.last().ttl == states[0].ttl,
        states.last().single == last_of_all(calls),
        forall|k: Identity| #[trigger]
            states.last().entries.contains_key(k) ==> last_published(calls, states[0], k) == Some(
                states.last().entries[k],
            ),
    decreases calls.len(),
{
    if calls.len() > 0 {
        lemma_shorter_course(states, calls);
        lemma_course(states.drop_last(), calls.drop_last());
        let pre = states.drop_last().last();
        let post = states.last();
        assert(states.drop_last()[0] == states[0]);
        assert forall|k: Identity| #[trigger] post.entries.contains_key(k) implies last_published(
            calls,
            states[0],
            k,
        ) == Some(post.entries[k]) by {
            match calls.last() {
                Call::SetFor { actor, workspace, project, now } => {
                    let full = before_the_cap(pre, actor, workspace, project, now);
                    if pre.key(actor) is Some {
                        assert(post.entries.dom().contains(k) && full.dom().contains(k));
                        assert(full.contains_key(k) && full[k] == post.entries[k]);
                    }
                    if pre.key(actor) != Some(k) {
                        assert(pre.entries.contains_key(k));
                    }
                },
                Call::GetFor { actor, now } => {
                    assert(pre.entries.contains_key(k));
                },
                Call::SetSlot { .. } | Call::Get => {
                    assert(pre.entries.contains_key(k));
                },
                Call::Clear => {},
            }
        }
    }
}

proof fn lemma_not_evicted(
    states: Seq<ActiveState>,
    calls: Seq<Call>,
    key: Identity,
    now: int,
)
    requires
        is_course(states, calls),
        forall|i: int| 0 <= i < calls.len() ==> (#[trigger] calls[i]).made_until(now),
        last_published(calls, states[0], key) matches Some(slot) && is_live(
            slot,
            now,
            states[0].ttl,
        ),
        !evicted(states, calls, key),
        states[0].ttl > 0,
    ensures
        states.last().entries.contains_key(key),
    decreases calls.len(),
{
    if calls.len() > 0 {
        lemma_shorter_course(states, calls);
        lemma_course(states.drop_last(), calls.drop_last());
        let n = calls.len() as int;
        let pre = states[n - 1];
        let post = states[n];
        let before = calls.drop_last();
        assert(states.drop_last().last() == pre);
        assert(states.drop_last()[0] == states[0]);
        assert(calls[n - 1].made_until(now));
        assert forall|i: int| 0 <= i < before.len() implies (#[trigger] before[i]).made_until(now) by {
            assert(calls[i].made_until(now));
        }
        match calls.last() {
            Call::SetFor { actor, workspace, project, now: at } => {
                let full = before_the_cap(pre, actor, workspace, project, at);
                if pre.key(actor) == Some(key) {
                    assert(full.contains_key(key));
                } else {
                    lemma_not_evicted(states.drop_last(), before, key, now);
                    assert(pre.entries.contains_key(key));
                    assert(last_published(before, states[0], key) == Some(pre.entries[key]));
                    assert(full.contains_key(key));
                }
            },
            Call::Clear => {},
            _ => {
                lemma_not_evicted(states.drop_last(), before, key, now);
                assert(pre.entries.contains_key(key));
                assert(last_published(before, states[0], key) == Some(pre.entries[key]));
            },
        }
    }
}

/// What an actor reads after any course of calls, at a time when all of them
/// have been made: what was last published under its key since the last
/// `clear`, where that is still good and the cap has not made it leave; else
/// what was last published by anyone. Reading leaves the one slot alone.
pub proof fn law_reading_after_a_course_of_calls(
    states: Seq<ActiveState>,
    calls: Seq<Call>,
    actor: Identity,
    now: int,
)
    requires
        is_course(states, calls),
        states[0].ttl > 0,
        forall|i: int| 0 <= i < calls.len() ==> (#[trigger] calls[i]).made_until(now),
    ensures
        states.last().single == last_of_all(calls),
        states.last().lookup(actor, now) == match states[0].key(actor) {
            Some(key) => match last_published(calls, states[0], key) {
                Some(slot) => if is_live(slot, now, states[0].ttl) && !evicted(
                    states,
                    calls,
                    key,
                ) {
                    Some((slot.workspace, slot.project))
                } else {
                    last_of_all(calls)
                },
                None => last_of_all(calls),
            },
            None => last_of_all(calls),
        },
        states.last().after_lookup(actor, now).single == states.last().single,
{
    lemma_course(states, calls);
    let end = states.last();
    if let Some(key) = states[0].key(actor) {
        if let Some(slot) = last_published(calls, states[0], key) {
            if is_live(slot, now, states[0].ttl) && !evicted(states, calls, key) {
                lemma_not_evicted(states, calls, key, now);
            } else if evicted(states, calls, key) {
                lemma_evicted_is_gone(states, calls, key);
            }
        }
    }
}

proof fn lemma_evicted_is_gone(states: Seq<ActiveState>, calls: Seq<Call>, key: Identity)
    requires
        is_course(states, calls),
        evicted(states, calls, key),
    ensures
        !states.last().entries.contains_key(key),
    decreases calls.len(),
{
    if calls.len() > 0 {
        lemma_shorter_course(states, calls);
        lemma_course(states.drop_last(), calls.drop_last());
        let n = calls.len() as int;
        let pre = states[n - 1];
        let post = states[n];
        assert(states.drop_last().last() == pre);
        assert(states.drop_last()[0] == states[0]);
        if !cap_evicts(pre, calls.last(), post, key) {
            lemma_evicted_is_gone(states.drop_last(), calls.drop_last(), key);
            if post.entries.contains_key(key) {
                match calls.last() {
                    Call::SetFor { actor, workspace, project, now } => {
                        let full = before_the_cap(pre, actor, workspace, project, now);
                        if pre.key(actor) is Some {
                            assert(post.entries.dom().contains(key) && full.dom().contains(key));
                            assert(full.contains_key(key));
                        }
                        assert(pre.entries.contains_key(key));
                    },
                    _ => {
                        assert(pre.entries.contains_key(key));
                    },
                }
            }
        }
    }
}

/// In mode `Single` every actor reads what was last published by anyone, after
/// any course of calls.
pub proof fn law_single_mode_after_a_course_of_calls(
    states: Seq<ActiveState>,
    calls: Seq<Call>,
    actor: Identity,
    now: int,
)
    requires
        is_course(states, calls),
        states[0].mode == ActiveProjectMode::Single,
    ensures
        states.last().lookup(actor, now) == last_of_all(calls),
{
    lemma_course(states, calls);
}

} // verus!
