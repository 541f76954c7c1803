use ai_memory::git::{CommitInfo, CommitPlan, GitAdapter, HeadState, History, Lookup, RepoState};
use ai_memory::git::{COMMIT_AUTHOR_EMAIL, COMMIT_AUTHOR_NAME};
use ai_memory::page::WikiError;
use std::path::Path;
use std::time::{SystemTime, UNIX_EPOCH};

fn adapter() -> GitAdapter {
    GitAdapter::open_or_init("/w/wiki", RepoState::Existing).unwrap()
}

fn info(oid: &str, summary: Option<&str>, time: i64) -> CommitInfo {
    CommitInfo {
        oid: oid.to_string(),
        summary: summary.map(|s| s.to_string()),
        time,
    }
}

fn io_text(e: WikiError) -> String {
    match e {
        WikiError::Io(text) => text,
    }
}

#[test]
fn opening_is_idempotent() {
    assert_eq!(adapter().root(), "/w/wiki");
    assert_eq!(adapter().clone().root(), "/w/wiki");
    let made = GitAdapter::open_or_init("/w", RepoState::Initialised).unwrap();
    assert_eq!(made.root(), "/w");
    for state in [
        RepoState::NoDirectory("no".to_string()),
        RepoState::InitFailed("no".to_string()),
    ] {
        let e = GitAdapter::open_or_init("/w", state).unwrap_err();
        assert_eq!(io_text(e), "no");
    }
    assert_eq!(COMMIT_AUTHOR_NAME, "ai-memory");
    assert_eq!(COMMIT_AUTHOR_EMAIL, "ai-memory@local");
}

#[test]
fn init_is_idempotent_and_creates_dotgit() {
    let stamp = SystemTime::now()
        .duration_since(UNIX_EPOCH)
        .unwrap()
        .as_nanos();
    let root = format!("/tmp/ai-memory-{stamp}/wiki");
    git2::Repository::init(&root).unwrap();
    let made = GitAdapter::open_or_init(&root, RepoState::Initialised).unwrap();
    assert!(Path::new(made.root()).join(".git").is_dir());
    // Second open is a no-op.
    assert!(git2::Repository::open(made.root()).is_ok());
    let again = GitAdapter::open_or_init(&root, RepoState::Existing).unwrap();
    assert_eq!(again.root(), root);
    assert!(Path::new(again.root()).join(".git").is_dir());
}

#[test]
fn a_clean_tree_is_not_committed_and_a_dirty_one_is() {
    let a = adapter();
    // A new repository with nothing in it.
    let plan = a.commit_all("t0", &HeadState::Unborn, true).unwrap();
    assert!(matches!(plan, CommitPlan::Nothing));
    // The first file.
    let plan = a.commit_all("t1", &HeadState::Unborn, false).unwrap();
    assert!(matches!(plan, CommitPlan::Commit { parent: None }));
    // Nothing has changed since.
    let head = HeadState::At {
        oid: "c1".to_string(),
        tree: Ok("t1".to_string()),
    };
    let plan = a.commit_all("t1", &head, false).unwrap();
    assert!(matches!(plan, CommitPlan::Nothing));
    // The file is deleted: the tree is the empty one again.
    match a.commit_all("t0", &head, true).unwrap() {
        CommitPlan::Commit { parent } => assert_eq!(parent.unwrap(), "c1"),
        CommitPlan::Nothing => panic!("a deletion is a change"),
    }
}

#[test]
fn an_odd_head_does_not_stop_a_commit() {
    let a = adapter();
    let plan = a.commit_all("t", &HeadState::NoTarget, true).unwrap();
    assert!(matches!(plan, CommitPlan::Commit { parent: None }));
    let broken = HeadState::At {
        oid: "c".to_string(),
        tree: Err("missing".to_string()),
    };
    let e = a.commit_all("t", &broken, false).unwrap_err();
    assert_eq!(io_text(e), "missing");
}

#[test]
fn commits_that_cannot_be_counted_are_none() {
    assert_eq!(adapter().commit_count(None), 0);
    assert_eq!(adapter().commit_count(Some(2)), 2);
}

#[test]
fn checkpoints_come_newest_first() {
    let history = || {
        History::Commits(vec![
            Ok(info("c2", Some("second checkpoint"), 20)),
            Ok(info("c1", None, 10)),
        ])
    };
    let found = adapter().recent_checkpoints(10, history()).unwrap();
    assert_eq!(found.len(), 2);
    assert_eq!(found[0].oid, "c2");
    assert_eq!(found[0].summary, "second checkpoint");
    assert_eq!(found[0].time, 20);
    assert_eq!(found[1].oid, "c1");
    assert_eq!(found[1].clone().summary, "(no summary)");
    assert_eq!(adapter().recent_checkpoints(1, history()).unwrap().len(), 1);
    assert!(adapter().recent_checkpoints(0, history()).unwrap().is_empty());
}

#[test]
fn an_empty_history_has_no_checkpoints() {
    let a = adapter();
    assert!(a.recent_checkpoints(5, History::Empty).unwrap().is_empty());
    let e = a
        .recent_checkpoints(5, History::Unreadable("gone".to_string()))
        .unwrap_err();
    assert_eq!(io_text(e), "gone");
    // Without a limit nothing is read at all.
    let none = a.recent_checkpoints(0, History::Unreadable("gone".to_string()));
    assert!(none.unwrap().is_empty());
    let broken = || {
        History::Commits(vec![
            Ok(info("c2", None, 2)),
            Err("first".to_string()),
            Err("second".to_string()),
        ])
    };
    assert_eq!(a.recent_checkpoints(1, broken()).unwrap().len(), 1);
    assert_eq!(io_text(a.recent_checkpoints(3, broken()).unwrap_err()), "first");
}

#[test]
fn a_file_is_read_as_it_was() {
    let a = adapter();
    let bytes = a
        .file_at_rev("c1", "a.md", Lookup::Blob(b"one".to_vec()))
        .unwrap();
    assert_eq!(String::from_utf8(bytes).unwrap(), "one");
    let e = a.file_at_rev("c1", "dir", Lookup::NotAFile).unwrap_err();
    assert_eq!(io_text(e), "dir at c1 is not a file");
    let e = a
        .file_at_rev("c1", "x", Lookup::Failed("no rev".to_string()))
        .unwrap_err();
    assert_eq!(io_text(e), "no rev");
}
