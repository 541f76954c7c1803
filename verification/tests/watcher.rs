use ai_memory::page::WikiError;
use ai_memory::watcher::{event_candidates, is_markdown, is_tempfile, next_action, page_of_file};
use ai_memory::watcher::{page_path_relative_to, reads_again, reads_path, ChangeKind, EventQueue, Found, FoundKind};
use ai_memory::watcher::{Listing, LoopAction, MarkdownWalk, DEBOUNCE_WINDOW, RECONCILE_INTERVAL};

fn found(id: usize, path: &str, kind: FoundKind) -> Found {
    Found {
        id,
        path: path.to_string(),
        kind,
    }
}

#[test]
fn ignores_own_atomic_tempfiles() {
    assert!(is_tempfile("/some/dir/.ai-memory-tmp.abc.md"));
    assert!(!is_tempfile("/some/dir/normal.md"));
}

#[test]
fn walk_markdown_skips_symlinks() {
    let mut walk = MarkdownWalk::new("/tmp/wiki");
    assert_eq!(walk.next_dir(), Some(0));
    walk.take_listing(Listing::Entries(vec![
        found(1, "/tmp/wiki/real.md", FoundKind::File),
        found(2, "/tmp/wiki/symlinked.md", FoundKind::Symlink),
    ]))
    .unwrap();
    assert!(walk.next_dir().is_none());
    let names: Vec<String> = walk
        .into_pages()
        .iter()
        .map(|p| p.as_str().to_string())
        .collect();
    assert!(names.contains(&"real.md".to_string()), "real file present");
    assert!(
        !names.contains(&"symlinked.md".to_string()),
        "symlink to outside file must be skipped; got: {names:?}"
    );
}

#[test]
fn a_walk_goes_into_every_directory() {
    let mut walk = MarkdownWalk::new("/w");
    walk.next_dir().unwrap();
    walk.take_listing(Listing::Entries(vec![
        found(1, "/w/a.md", FoundKind::File),
        found(2, "/w/.hidden", FoundKind::Dir),
        found(3, "/w/gone", FoundKind::Dir),
        found(4, "/w/pipe.md", FoundKind::Other),
        found(5, "/w/.ai-memory-tmp.1.md", FoundKind::File),
        found(6, "/w/notes.txt", FoundKind::File),
    ]))
    .unwrap();
    assert_eq!(walk.next_dir(), Some(3));
    walk.take_listing(Listing::NotFound).unwrap();
    assert_eq!(walk.next_dir(), Some(2));
    walk.take_listing(Listing::Entries(vec![found(
        7,
        "/w/.hidden/b.md",
        FoundKind::File,
    )]))
    .unwrap();
    assert!(walk.next_dir().is_none());
    let names: Vec<String> = walk
        .into_pages()
        .iter()
        .map(|p| p.as_str().to_string())
        .collect();
    assert_eq!(names, vec!["a.md", ".hidden/b.md"]);
}

#[test]
fn a_walk_ends_where_reading_fails() {
    let mut walk = MarkdownWalk::new("/w");
    walk.next_dir().unwrap();
    match walk.take_listing(Listing::Failed("denied".to_string())) {
        Err(WikiError::Io(message)) => assert_eq!(message, "denied"),
        Ok(()) => panic!("must fail"),
    }
}

#[test]
fn pages_are_seen_from_the_root() {
    let page = |root: &str, path: &str| {
        page_path_relative_to(root, path).map(|p| p.as_str().to_string())
    };
    assert_eq!(page("/w", "/w/a/b.md").as_deref(), Some("a/b.md"));
    assert_eq!(page("/w/", "/w/a\\b.md").as_deref(), Some("a/b.md"));
    assert_eq!(page("/w", "/w").as_deref(), None);
    assert_eq!(page("/w", "/elsewhere/b.md").as_deref(), None);
    assert_eq!(page("/w", "/w/../b.md").as_deref(), None);
    assert!(is_markdown("/w/a.md"));
    assert!(!is_markdown("/w/.md"));
    assert!(!is_markdown("/w/a.mdx"));
    assert!(page_of_file("/w", "/w/a.txt").is_none());
    assert!(page_of_file("/w", "/w/.ai-memory-tmp.x.md").is_none());
    assert_eq!(page_of_file("/w", "/w/external.md").unwrap().as_str(), "external.md");
}

#[test]
fn events_lead_to_the_pages_among_their_paths() {
    let paths = vec![
        "/w/a.md".to_string(),
        "/w/b.txt".to_string(),
        "/w/.ai-memory-tmp.9.md".to_string(),
        "/x/c.md".to_string(),
        "/w/d/e.md".to_string(),
    ];
    for kind in [ChangeKind::Create, ChangeKind::Modify, ChangeKind::Other] {
        let hits: Vec<(usize, String)> = event_candidates(kind, "/w", &paths)
            .iter()
            .map(|c| (c.index, c.page.as_str().to_string()))
            .collect();
        assert_eq!(hits, vec![(0, "a.md".to_string()), (4, "d/e.md".to_string())]);
    }
    for kind in [ChangeKind::Any, ChangeKind::Access, ChangeKind::Remove] {
        assert!(event_candidates(kind, "/w", &paths).is_empty());
    }
}

#[test]
fn events_come_before_stopping_and_stopping_before_walks() {
    assert_eq!(
        next_action(true, EventQueue::Event, true),
        LoopAction::HandleEvent
    );
    assert_eq!(
        next_action(true, EventQueue::Pending, true),
        LoopAction::Stop
    );
    assert_eq!(
        next_action(true, EventQueue::Closed, false),
        LoopAction::Stop
    );
    assert_eq!(
        next_action(false, EventQueue::Event, true),
        LoopAction::HandleEvent
    );
    assert_eq!(
        next_action(false, EventQueue::Closed, true),
        LoopAction::Reconcile
    );
    assert_eq!(
        next_action(false, EventQueue::Pending, false),
        LoopAction::Wait
    );
    assert_eq!(RECONCILE_INTERVAL, 30_000);
    assert_eq!(DEBOUNCE_WINDOW, 300);
}

#[test]
fn stopping_drains_the_queue() {
    let mut waiting = 3;
    let mut handled = 0;
    loop {
        let queue = if waiting > 0 {
            EventQueue::Event
        } else {
            EventQueue::Closed
        };
        match next_action(true, queue, true) {
            LoopAction::HandleEvent => {
                waiting -= 1;
                handled += 1;
            }
            LoopAction::Stop => break,
            _ => panic!("nothing else is done"),
        }
    }
    assert_eq!(handled, 3);
}

#[test]
fn only_a_regular_file_is_read_again() {
    assert!(reads_again(FoundKind::File));
    assert!(!reads_again(FoundKind::Symlink));
    assert!(!reads_again(FoundKind::Dir));
    assert!(!reads_again(FoundKind::Other));
}

#[test]
fn a_link_on_the_way_is_not_followed() {
    check_kinds(&[FoundKind::File], true);
    check_kinds(&[FoundKind::Dir, FoundKind::Dir, FoundKind::File], true);
    check_kinds(&[FoundKind::Symlink, FoundKind::File], false);
    check_kinds(&[FoundKind::Dir, FoundKind::Symlink, FoundKind::File], false);
    check_kinds(&[FoundKind::Dir, FoundKind::Symlink], false);
    check_kinds(&[FoundKind::Dir], false);
    check_kinds(&[FoundKind::File, FoundKind::File], false);
    check_kinds(&[], false);
}

fn check_kinds(kinds: &[FoundKind], read: bool) {
    assert_eq!(reads_path(&kinds.to_vec()), read, "{kinds:?}");
}
