use ai_memory::consolidator::{build_frontmatter, build_request, one_line, short_id};
use ai_memory::consolidator::{AfterPage, ConsolidatedPage, Consolidator, ConsolidatorError};
use ai_memory::consolidator::{Observation, Role, SYSTEM_PROMPT};
use ai_memory::ids::{PageId, ProjectId, SessionId, WorkspaceId};
use ai_memory::page::{MemoryError, PagePath, Tier};

fn session(text: &str) -> SessionId {
    SessionId {
        text: text.to_string(),
    }
}

fn observation(kind: &str, title: &str, body: &str) -> Observation {
    Observation {
        kind: kind.to_string(),
        title: title.to_string(),
        body: body.to_string(),
    }
}

fn page(tags: &[&str]) -> ConsolidatedPage {
    ConsolidatedPage {
        title: "A title".to_string(),
        body_markdown: "## Body".to_string(),
        tags: tags.iter().map(|t| t.to_string()).collect(),
    }
}

fn consolidator() -> Consolidator {
    Consolidator::new(WorkspaceId(1), ProjectId(2))
}

fn reference(s: &str) -> String {
    s.lines()
        .map(str::trim)
        .filter(|l| !l.is_empty())
        .take(3)
        .collect::<Vec<_>>()
        .join(" / ")
        .chars()
        .take(240)
        .collect()
}

#[test]
fn quotes_are_one_short_line() {
    for s in [
        "",
        "one",
        "  one  \n\n\ttwo\r\nthree\nfour",
        "\r\n\r\n",
        "a\rb\nc",
        "\u{2003}ä\u{a0}\n ß ",
        "x\n",
    ] {
        assert_eq!(one_line(s), reference(s), "{s:?}");
    }
    assert_eq!(one_line("  one  \n\n\ttwo\r\nthree\nfour"), "one / two / three");
    let long = "ä".repeat(300);
    assert_eq!(one_line(&long).chars().count(), 240);
    assert_eq!(one_line(&long), reference(&long));
}

#[test]
fn short_ids_have_eight_characters() {
    assert_eq!(short_id("0198c0de-1111"), "0198c0de");
    assert_eq!(short_id("abc"), "abc");
}

#[test]
fn the_request_quotes_the_log_and_the_page() {
    let log = vec![
        observation("session-start", "start", "  "),
        observation("user-prompt", "user\nprompt", "fix\n\nit"),
    ];
    let r = build_request(&session("s-1"), &log, "old body");
    assert_eq!(r.system.as_deref(), Some(SYSTEM_PROMPT));
    assert_eq!(r.max_tokens, 1500);
    assert_eq!(r.temperature_tenths, Some(2));
    assert_eq!(r.messages.len(), 1);
    assert_eq!(r.messages[0].role, Role::User);
    assert_eq!(
        r.messages[0].content,
        "Session id: s-1\nObservations (in order):\n\n\
         - session-start | start\n\
         - user-prompt | user / prompt\n    body: fix / it\n\
         \nCurrent (heuristic) page body:\n\n```\nold body\n```\n"
    );
    let r = build_request(&session("s-1"), &vec![], " \n");
    assert_eq!(
        r.messages[0].content,
        "Session id: s-1\nObservations (in order):\n\n"
    );
}

#[test]
fn the_system_prompt_is_as_agreed() {
    assert!(SYSTEM_PROMPT.starts_with("You are the maintainer of a Karpathy-style LLM wiki for a software engineer."));
    assert!(SYSTEM_PROMPT.contains("recover context.\n\nRules:\n1. Title: short, descriptive (<= 80 chars). No filler.\n"));
    assert!(SYSTEM_PROMPT.contains("and open questions.\n4. Do NOT include redundant"));
    assert!(SYSTEM_PROMPT.ends_with("6. Tags: 0-5 short kebab-case tags surfaced to frontmatter.\n"));
}

#[test]
fn frontmatter_names_tags_only_where_there_are_any() {
    assert_eq!(
        build_frontmatter(&page(&["a", "b\""])).to_string(),
        "{\"consolidated\":true,\"tags\":[\"a\",\"b\\\"\"],\"tier\":\"episodic\",\"title\":\"A title\"}"
    );
    assert_eq!(
        build_frontmatter(&page(&[])).to_string(),
        "{\"consolidated\":true,\"tier\":\"episodic\",\"title\":\"A title\"}"
    );
}

#[test]
fn a_session_without_observations_is_an_error() {
    let c = consolidator();
    match c.begin(&session("s"), &Ok(vec![])) {
        Err(e) => {
            assert!(matches!(e, ConsolidatorError::EmptySession(_)));
            assert_eq!(e.message(), "session s has no observations");
        }
        Ok(_) => panic!("must fail"),
    }
    match c.begin(&session("s"), &Err("locked".to_string())) {
        Err(e) => {
            assert!(matches!(e, ConsolidatorError::Store(_)));
            assert_eq!(e.message(), "locked");
        }
        Ok(_) => panic!("must fail"),
    }
    let log = || Ok(vec![observation("k", "t", "b")]);
    match c.begin(&session("/../x"), &log()) {
        Err(e) => {
            assert!(matches!(
                e,
                ConsolidatorError::Memory(MemoryError::InvalidPagePath(_))
            ));
            assert_eq!(e.message(), "invalid page path: sessions//../x.md");
        }
        Ok(_) => panic!("must fail"),
    }
    assert_eq!(
        c.begin(&session("0198"), &log()).unwrap().as_str(),
        "sessions/0198.md"
    );
}

#[test]
fn an_unreadable_page_counts_as_empty() {
    let c = consolidator();
    let log = vec![observation("k", "t", "")];
    let r = c.ask(&session("s"), &log, None);
    assert_eq!(
        r.messages[0].content,
        "Session id: s\nObservations (in order):\n\n- k | t\n"
    );
    let r = c.ask(&session("s"), &log, Some("b".to_string()));
    assert!(r.messages[0].content.ends_with("```\nb\n```\n"));
}

#[test]
fn a_dry_run_writes_nothing() {
    let path = PagePath::new("sessions/s.md".to_string()).unwrap();
    match consolidator().answered(path, Ok(page(&["t"])), true) {
        Ok(AfterPage::Finished(o)) => {
            assert!(o.dry_run && o.page_id.is_none());
            assert_eq!(o.path.as_str(), "sessions/s.md");
            assert_eq!(o.new_title, "A title");
            assert_eq!(o.new_body_markdown, "## Body");
            assert_eq!(o.tags, vec!["t"]);
        }
        _ => panic!("must be finished"),
    }
}

#[test]
fn a_page_is_written_and_committed() {
    let c = consolidator();
    let path = PagePath::new("sessions/s.md".to_string()).unwrap();
    match c.answered(path.clone(), Ok(page(&[])), false) {
        Ok(AfterPage::Write(w, p)) => {
            assert_eq!(w.workspace_id, WorkspaceId(1));
            assert_eq!(w.project_id, ProjectId(2));
            assert_eq!(w.path.as_str(), "sessions/s.md");
            assert_eq!(w.body, "## Body");
            assert_eq!(w.tier, Tier::Episodic);
            assert!(!w.pinned);
            assert_eq!(w.frontmatter["consolidated"], true);
            assert_eq!(
                c.commit_message(&session("0198c0de-11"), &p),
                "consolidate(session 0198c0de): A title"
            );
            let o = c.written(w.path, p, Ok(PageId(9))).unwrap();
            assert!(!o.dry_run);
            assert_eq!(o.page_id, Some(PageId(9)));
        }
        _ => panic!("must be written"),
    }
    let mut long = page(&[]);
    long.title = "t".repeat(99);
    assert_eq!(
        c.commit_message(&session("s"), &long),
        format!("consolidate(session s): {}", "t".repeat(60))
    );
    match c.answered(path.clone(), Err("timeout".to_string()), false) {
        Err(e) => assert_eq!(e.message(), "timeout"),
        Ok(_) => panic!("must fail"),
    }
    match c.written(path, page(&[]), Err("disk full".to_string())) {
        Err(e) => {
            assert!(matches!(e, ConsolidatorError::Wiki(_)));
            assert_eq!(e.message(), "disk full");
        }
        Ok(_) => panic!("must fail"),
    }
}

#[test]
fn json_errors_keep_their_text() {
    let parsed: Result<serde_json::Value, serde_json::Error> = serde_json::from_str("nope");
    let e = ConsolidatorError::from(parsed.unwrap_err());
    assert!(matches!(e, ConsolidatorError::Serde(_)));
    assert_eq!(e.message(), "serde: expected ident at line 1 column 2");
}

struct Broken;

impl std::io::Read for Broken {
    fn read(&mut self, _buf: &mut [u8]) -> std::io::Result<usize> {
        Err(std::io::Error::other("cable cut"))
    }
}

#[test]
fn failed_reading_is_told_in_words_of_its_own() {
    let read: Result<serde_json::Value, serde_json::Error> = serde_json::from_reader(Broken);
    let e = ConsolidatorError::from(read.unwrap_err());
    assert_eq!(e.message(), "serde: reading or writing failed");
}

#[test]
fn errors_say_what_they_are() {
    assert_eq!(
        ConsolidatorError::Serde("bad".to_string()).message(),
        "serde: bad"
    );
    assert_eq!(
        ConsolidatorError::SessionNotFound(session("s")).message(),
        "session not found: s"
    );
    assert_eq!(ConsolidatorError::Llm("l".to_string()).message(), "l");
    assert_eq!(ConsolidatorError::Wiki("w".to_string()).message(), "w");
}

#[test]
fn a_failed_commit_is_a_failure_of_the_wiki() {
    let c = consolidator();
    let outcome = || {
        let path = PagePath::new("sessions/s.md".to_string()).unwrap();
        c.written(path, page(&["t"]), Ok(PageId(9))).unwrap()
    };
    let done = c.committed(outcome(), Ok(())).unwrap();
    assert_eq!(done.page_id, Some(PageId(9)));
    assert_eq!(done.path.as_str(), "sessions/s.md");
    assert_eq!(done.new_title, "A title");
    assert_eq!(done.tags, vec!["t"]);
    match c.committed(outcome(), Err("index locked".to_string())) {
        Err(e) => {
            assert!(matches!(e, ConsolidatorError::Wiki(_)));
            assert_eq!(e.message(), "index locked");
        }
        Ok(_) => panic!("must fail"),
    }
}
