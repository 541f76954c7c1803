use ai_memory::active_project::{ActiveProject, ActiveProjectMode, ActorKey, PerActorMap};
use ai_memory::active_project::{DEFAULT_MAX_ENTRIES, DEFAULT_PER_KEY_TTL};
use ai_memory::ids::{ProjectId, WorkspaceId};
use ai_memory::shared::SharedActiveProject;
use std::time::Duration;

fn key_session(s: &str) -> ActorKey {
    ActorKey {
        user: None,
        session_id: Some(s.to_string()),
    }
}

fn key_actor(user: &str, session: &str) -> ActorKey {
    ActorKey {
        user: Some(user.to_string()),
        session_id: Some(session.to_string()),
    }
}

fn empty_actor() -> ActorKey {
    ActorKey {
        user: None,
        session_id: None,
    }
}

fn millis(n: u64) -> u128 {
    Duration::from_millis(n).as_nanos()
}

#[test]
fn starts_empty() {
    assert!(ActiveProject::new().get().is_none());
}

#[test]
fn set_then_get_round_trips_legacy_api() {
    let mut ap = ActiveProject::new();
    let ws = WorkspaceId(1);
    let proj = ProjectId(2);
    ap.set(ws, proj);
    assert_eq!(ap.get(), Some((ws, proj)));
}

#[test]
fn set_overwrites_previous_legacy_api() {
    let mut ap = ActiveProject::new();
    ap.set(WorkspaceId(1), ProjectId(2));
    let ws2 = WorkspaceId(3);
    let proj2 = ProjectId(4);
    ap.set(ws2, proj2);
    assert_eq!(ap.get(), Some((ws2, proj2)));
}

#[test]
fn clones_share_one_slot() {
    let a = SharedActiveProject::share(ActiveProject::new());
    let b = a.clone();
    let ws = WorkspaceId(1);
    let proj = ProjectId(2);
    a.set(ws, proj);
    assert_eq!(b.get(), Some((ws, proj)), "clone must see the same slot");
}

#[test]
fn clear_drops_single_and_per_actor() {
    let mut ap = ActiveProject::with_mode(ActiveProjectMode::PerActor);
    let alice = key_actor("alice", "sA");
    let ws = WorkspaceId(1);
    let proj = ProjectId(2);
    ap.set_for(&alice, ws, proj);
    assert_eq!(ap.get_for(&alice), Some((ws, proj)));

    ap.clear();
    assert!(ap.get_for(&alice).is_none(), "per-actor entry must be gone");
    assert!(ap.get().is_none(), "single slot must be gone");
}

#[test]
fn single_mode_ignores_actor_coordinates() {
    let mut ap = ActiveProject::new();
    let alice = key_actor("alice", "sA");
    let bob = key_actor("bob", "sB");
    let ws = WorkspaceId(1);
    let p_alice = ProjectId(2);
    let p_bob = ProjectId(3);
    ap.set_for(&alice, ws, p_alice);
    ap.set_for(&bob, ws, p_bob);
    // Both reads see the last write.
    assert_eq!(ap.get_for(&alice), Some((ws, p_bob)));
    assert_eq!(ap.get_for(&bob), Some((ws, p_bob)));
    assert_eq!(ap.get(), Some((ws, p_bob)));
}

#[test]
fn per_session_isolates_by_session_id() {
    let mut ap = ActiveProject::with_mode(ActiveProjectMode::PerSession);
    let sess_a = key_session("sA");
    let sess_b = key_session("sB");
    let ws = WorkspaceId(1);
    let p_a = ProjectId(2);
    let p_b = ProjectId(3);
    ap.set_for(&sess_a, ws, p_a);
    ap.set_for(&sess_b, ws, p_b);
    assert_eq!(ap.get_for(&sess_a), Some((ws, p_a)));
    assert_eq!(ap.get_for(&sess_b), Some((ws, p_b)));
}

#[test]
fn per_session_ignores_user_field() {
    let mut ap = ActiveProject::with_mode(ActiveProjectMode::PerSession);
    let ws = WorkspaceId(1);
    let p = ProjectId(2);
    let alice = key_actor("alice", "shared-session");
    let bob = key_actor("bob", "shared-session");
    ap.set_for(&alice, ws, p);
    let p_bob = ProjectId(3);
    ap.set_for(&bob, ws, p_bob);
    // Same session, different users: still one entry.
    assert_eq!(ap.get_for(&alice), Some((ws, p_bob)));
}

#[test]
fn per_actor_isolates_by_user_and_session() {
    let mut ap = ActiveProject::with_mode(ActiveProjectMode::PerActor);
    let alice_a = key_actor("alice", "sA");
    let alice_b = key_actor("alice", "sB");
    let bob_a = key_actor("bob", "sA");
    let ws = WorkspaceId(1);
    let p1 = ProjectId(2);
    let p2 = ProjectId(3);
    let p3 = ProjectId(4);
    ap.set_for(&alice_a, ws, p1);
    ap.set_for(&alice_b, ws, p2);
    ap.set_for(&bob_a, ws, p3);
    assert_eq!(ap.get_for(&alice_a), Some((ws, p1)));
    assert_eq!(ap.get_for(&alice_b), Some((ws, p2)));
    assert_eq!(ap.get_for(&bob_a), Some((ws, p3)));
}

#[test]
fn per_actor_falls_back_to_single_when_actor_is_empty() {
    let mut ap = ActiveProject::with_mode(ActiveProjectMode::PerActor);
    let ws = WorkspaceId(1);
    let proj = ProjectId(2);
    ap.set(ws, proj);
    assert_eq!(ap.get_for(&empty_actor()), Some((ws, proj)));
}

#[test]
fn per_actor_set_also_updates_single_slot() {
    let mut ap = ActiveProject::with_mode(ActiveProjectMode::PerActor);
    let alice = key_actor("alice", "sA");
    let ws = WorkspaceId(1);
    let proj = ProjectId(2);
    ap.set_for(&alice, ws, proj);
    assert_eq!(ap.get(), Some((ws, proj)));
}

#[test]
fn per_actor_max_entries_evicts_oldest() {
    let mut ap = ActiveProject::with_config(ActiveProjectMode::PerActor, DEFAULT_PER_KEY_TTL, 2);
    let ws = WorkspaceId(1);
    let p1 = ProjectId(2);
    let p2 = ProjectId(3);
    let p3 = ProjectId(4);
    let k1 = key_session("s1");
    let k2 = key_session("s2");
    let k3 = key_session("s3");
    ap.set_for_at(&k1, ws, p1, millis(0));
    ap.set_for_at(&k2, ws, p2, millis(2));
    ap.set_for_at(&k3, ws, p3, millis(4));
    assert!(
        ap.keyed_only_get_at(&k1, millis(4)).is_none(),
        "k1 must be evicted"
    );
    assert_eq!(ap.keyed_only_get_at(&k2, millis(4)), Some((ws, p2)));
    assert_eq!(ap.keyed_only_get_at(&k3, millis(4)), Some((ws, p3)));
    // The fallback hides the eviction.
    assert_eq!(ap.get_for_at(&k1, millis(4)), Some((ws, p3)));
}

#[test]
fn per_actor_ttl_expires_entries() {
    let mut ap = ActiveProject::with_config(
        ActiveProjectMode::PerActor,
        Duration::from_millis(20).as_nanos(),
        DEFAULT_MAX_ENTRIES,
    );
    let k = key_session("s");
    let ws = WorkspaceId(1);
    let proj = ProjectId(2);
    ap.set_for_at(&k, ws, proj, 0);
    assert_eq!(ap.get_for_at(&k, millis(10)), Some((ws, proj)));
    let later = Duration::from_millis(40).as_nanos();
    assert!(ap.keyed_only_get_at(&k, later).is_none());
    assert_eq!(ap.get_for_at(&k, later), Some((ws, proj)));
    ap.clear();
    assert!(ap.get_for_at(&k, later).is_none());
}

#[test]
fn an_entry_is_good_until_its_time_to_live_is_over() {
    let mut ap = ActiveProject::with_config(ActiveProjectMode::PerSession, 100, 8);
    let k = key_session("s");
    ap.set_for_at(&k, WorkspaceId(1), ProjectId(2), 5);
    let found = Some((WorkspaceId(1), ProjectId(2)));
    assert_eq!(ap.keyed_only_get_at(&k, 104), found);
    assert_eq!(ap.keyed_only_get_at(&k, 105), None);
    // It has left for good.
    assert_eq!(ap.keyed_only_get_at(&k, 6), None);
}

#[test]
fn a_clock_behind_the_entry_keeps_it() {
    let mut ap = ActiveProject::with_config(ActiveProjectMode::PerSession, 10, 8);
    let k = key_session("s");
    ap.set_for_at(&k, WorkspaceId(1), ProjectId(2), 1000);
    let found = Some((WorkspaceId(1), ProjectId(2)));
    assert_eq!(ap.keyed_only_get_at(&k, 0), found);
}

#[test]
fn a_time_to_live_of_zero_stands_for_an_hour() {
    let mut ap = ActiveProject::with_config(ActiveProjectMode::PerSession, 0, 8);
    let k = key_session("s");
    let hour = Duration::from_secs(3600).as_nanos();
    assert_eq!(DEFAULT_PER_KEY_TTL, hour);
    ap.set_for_at(&k, WorkspaceId(1), ProjectId(2), 0);
    let found = Some((WorkspaceId(1), ProjectId(2)));
    assert_eq!(ap.keyed_only_get_at(&k, hour - 1), found);
    assert_eq!(ap.keyed_only_get_at(&k, hour), None);
}

#[test]
fn a_cap_of_zero_stands_for_one() {
    let mut ap = ActiveProject::with_config(ActiveProjectMode::PerSession, 100, 0);
    let a = key_session("a");
    let b = key_session("b");
    ap.set_for_at(&a, WorkspaceId(1), ProjectId(2), 0);
    let found = Some((WorkspaceId(1), ProjectId(2)));
    assert_eq!(ap.keyed_only_get_at(&a, 1), found);
    ap.set_for_at(&b, WorkspaceId(1), ProjectId(3), 2);
    assert_eq!(ap.keyed_only_get_at(&a, 3), None);
    let other = Some((WorkspaceId(1), ProjectId(3)));
    assert_eq!(ap.keyed_only_get_at(&b, 3), other);
}

#[test]
fn setting_an_entry_again_makes_it_young() {
    let mut ap = ActiveProject::with_config(ActiveProjectMode::PerSession, 100, 2);
    let a = key_session("a");
    let b = key_session("b");
    let c = key_session("c");
    ap.set_for_at(&a, WorkspaceId(1), ProjectId(1), 0);
    ap.set_for_at(&b, WorkspaceId(1), ProjectId(2), 1);
    ap.set_for_at(&a, WorkspaceId(1), ProjectId(3), 2);
    ap.set_for_at(&c, WorkspaceId(1), ProjectId(4), 3);
    assert_eq!(ap.keyed_only_get_at(&b, 4), None);
    let renewed = Some((WorkspaceId(1), ProjectId(3)));
    assert_eq!(ap.keyed_only_get_at(&a, 4), renewed);
}

#[test]
fn a_session_mode_actor_without_a_session_uses_the_one_slot() {
    let mut ap = ActiveProject::with_mode(ActiveProjectMode::PerSession);
    let alice = ActorKey {
        user: Some("alice".to_string()),
        session_id: None,
    };
    assert!(!alice.is_empty());
    ap.set_for(&alice, WorkspaceId(1), ProjectId(2));
    assert_eq!(ap.keyed_only_get(&alice), None);
    assert_eq!(ap.get_for(&alice), Some((WorkspaceId(1), ProjectId(2))));
}

#[test]
fn defaults_are_single_and_empty() {
    assert_eq!(ActiveProjectMode::default(), ActiveProjectMode::Single);
    assert_eq!(ActiveProject::default().mode(), ActiveProjectMode::Single);
    assert!(ActorKey::default().is_empty());
    assert!(empty_actor().is_empty());
    assert!(key_session("s").same(&key_session("s").clone()));
    assert!(!key_session("s").same(&key_actor("u", "s")));
}

#[test]
fn the_shared_handle_passes_calls_on() {
    let handle = SharedActiveProject::share(ActiveProject::with_mode(ActiveProjectMode::PerActor));
    assert_eq!(handle.mode(), ActiveProjectMode::PerActor);
    let other = handle.clone();
    let alice = key_actor("alice", "sA");
    let bob = key_actor("bob", "sB");
    handle.set_for(&alice, WorkspaceId(1), ProjectId(2));
    other.set_for(&bob, WorkspaceId(1), ProjectId(3));
    assert_eq!(other.get_for(&alice), Some((WorkspaceId(1), ProjectId(2))));
    assert_eq!(handle.get(), Some((WorkspaceId(1), ProjectId(3))));
    other.clear();
    assert_eq!(handle.get_for(&alice), None);
    assert_eq!(handle.get(), None);
}

#[test]
fn a_full_map_keeps_the_younger_entries_of_others() {
    let mut ap = ActiveProject::with_config(ActiveProjectMode::PerActor, 100, 2);
    let old = key_actor("old", "s");
    let bob = key_actor("bob", "s");
    let carol = key_actor("carol", "s");
    ap.set_for_at(&old, WorkspaceId(1), ProjectId(1), 0);
    ap.set_for_at(&bob, WorkspaceId(1), ProjectId(2), 1);
    ap.set_for_at(&carol, WorkspaceId(1), ProjectId(3), 2);
    assert_eq!(
        ap.get_for_at(&bob, 3),
        Some((WorkspaceId(1), ProjectId(2)))
    );
    // The one that left reads the one slot.
    assert_eq!(
        ap.get_for_at(&old, 3),
        Some((WorkspaceId(1), ProjectId(3)))
    );
}

#[test]
fn writing_the_one_slot_leaves_entries_alone() {
    let mut ap = ActiveProject::with_mode(ActiveProjectMode::PerActor);
    let alice = key_actor("alice", "sA");
    ap.set_for_at(&alice, WorkspaceId(1), ProjectId(2), 0);
    ap.set(WorkspaceId(8), ProjectId(9));
    assert_eq!(
        ap.get_for_at(&alice, 1),
        Some((WorkspaceId(1), ProjectId(2)))
    );
    let bob = key_actor("bob", "sB");
    assert_eq!(
        ap.get_for_at(&bob, 1),
        Some((WorkspaceId(8), ProjectId(9)))
    );
}

#[test]
fn reading_prolongs_nothing() {
    let mut ap = ActiveProject::with_config(ActiveProjectMode::PerSession, 10, 8);
    let k = key_session("s");
    ap.set_for_at(&k, WorkspaceId(1), ProjectId(2), 0);
    for now in 1..10 {
        let found = Some((WorkspaceId(1), ProjectId(2)));
        assert_eq!(ap.keyed_only_get_at(&k, now), found);
    }
    assert_eq!(ap.keyed_only_get_at(&k, 10), None);
}

#[test]
fn publishing_again_drops_no_other_entry() {
    let mut ap = ActiveProject::with_config(ActiveProjectMode::PerActor, 100, 2);
    let a = key_actor("a", "s");
    let b = key_actor("b", "s");
    ap.set_for_at(&a, WorkspaceId(1), ProjectId(1), 0);
    ap.set_for_at(&b, WorkspaceId(1), ProjectId(2), 1);
    ap.set_for_at(&b, WorkspaceId(1), ProjectId(3), 2);
    assert_eq!(
        ap.keyed_only_get_at(&a, 3),
        Some((WorkspaceId(1), ProjectId(1)))
    );
    assert_eq!(
        ap.keyed_only_get_at(&b, 3),
        Some((WorkspaceId(1), ProjectId(3)))
    );
}

#[test]
fn a_full_map_keeps_what_was_set_last() {
    // All at the same time: the one that was set last stays.
    let mut map = PerActorMap::new(100, 2);
    for (i, name) in ["a", "b", "c", "d"].iter().enumerate() {
        map.insert(key_session(name), WorkspaceId(1), ProjectId(i as u128), 5);
        assert_eq!(
            map.get(&key_session(name), 5),
            Some((WorkspaceId(1), ProjectId(i as u128)))
        );
    }
    assert_eq!(map.get(&key_session("a"), 5), None);
    assert_eq!(map.get(&key_session("d"), 105), None);
}

#[test]
fn the_clock_never_falls_behind_the_entries() {
    let mut ap = ActiveProject::with_config(ActiveProjectMode::PerSession, 1_000_000_000_000, 1);
    let far = key_session("far");
    let near = key_session("near");
    ap.set_for_at(&far, WorkspaceId(1), ProjectId(1), 1_000_000_000_000_000);
    ap.set_for(&near, WorkspaceId(1), ProjectId(2));
    assert_eq!(
        ap.keyed_only_get(&near),
        Some((WorkspaceId(1), ProjectId(2)))
    );
    assert_eq!(ap.keyed_only_get(&far), None);
}

#[test]
fn a_mode_uses_what_it_needs_of_an_identity() {
    let alice = key_actor("alice", "s");
    let scoped = |mode: ActiveProjectMode| ActiveProject::with_mode(mode).scoped_key(&alice);
    assert!(scoped(ActiveProjectMode::Single).is_empty());
    assert!(scoped(ActiveProjectMode::PerSession).same(&key_session("s")));
    assert!(scoped(ActiveProjectMode::PerActor).same(&alice));
}

#[test]
fn a_course_of_calls_is_read_back() {
    let mut ap = ActiveProject::with_config(ActiveProjectMode::PerActor, 10, 8);
    let a = key_actor("a", "s");
    let b = key_actor("b", "s");
    let pair = |n: u128| Some((WorkspaceId(1), ProjectId(n)));
    ap.set_for_at(&a, WorkspaceId(1), ProjectId(1), 0);
    ap.clear();
    assert_eq!(ap.get_for_at(&a, 1), None);
    ap.set_for_at(&a, WorkspaceId(1), ProjectId(2), 2);
    ap.set_for_at(&a, WorkspaceId(1), ProjectId(3), 3);
    ap.set_for_at(&b, WorkspaceId(1), ProjectId(4), 4);
    ap.set(WorkspaceId(1), ProjectId(5));
    assert_eq!(ap.get_for_at(&a, 12), pair(3));
    assert_eq!(ap.get_for_at(&b, 13), pair(4));
    assert_eq!(ap.get_for_at(&a, 13), pair(5));
}
