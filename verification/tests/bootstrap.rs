use ai_memory::host::HostAgent;
use ai_memory::bootstrap::{local_dry_run, prune_sources_to_budget, SourceCounts};
use ai_memory::bootstrap::{BootstrapOutcome, BootstrapSource, SourceKind};
use ai_memory::bootstrap_run::{after_collection, full_report, human_report, plan_collection};
use ai_memory::bootstrap_run::{request_body, resolve_repo, AfterCollection, Exclusions};
use ai_memory::bootstrap_run::{RepoProbe, RepoTarget};

fn source(kind: SourceKind, label: &str, body_len: usize) -> BootstrapSource {
    BootstrapSource {
        kind,
        label: label.to_string(),
        text: "x".repeat(body_len),
    }
}

#[test]
fn local_dry_run_marks_outcome_as_dry_run() {
    let outcome = local_dry_run(vec![], 150_000);
    assert!(outcome.dry_run);
    assert_eq!(outcome.sources_collected, 0);
    assert_eq!(outcome.sources_sent, 0);
    assert!(outcome.pages_written.is_empty());
    assert!(outcome.rationale.contains("dry-run"));
}

#[test]
fn local_dry_run_tallies_kinds() {
    let sources = vec![
        source(SourceKind::Readme, "README", 200),
        source(SourceKind::GitCommit, "feat: x", 100),
        source(SourceKind::GitCommit, "fix: y", 100),
        source(SourceKind::DocFile, "docs/a.md", 300),
    ];
    let outcome = local_dry_run(sources, 150_000);
    assert_eq!(outcome.sources_collected, 4);
    assert_eq!(outcome.sources_sent, 4);
    assert_eq!(outcome.sources_dropped, 0);
    assert_eq!(outcome.sources_by_kind.readme, 1);
    assert_eq!(outcome.sources_by_kind.git_commits, 2);
    assert_eq!(outcome.sources_by_kind.doc_files, 1);
    assert!(outcome.estimated_input_tokens > 0);
    assert_eq!(outcome.estimated_input_tokens, 50 + 25 + 25 + 75);
}

#[test]
fn local_dry_run_drops_to_fit_tight_budget() {
    // 30 commits of 1000 characters are 7500 tokens; a budget of 2000 leaves
    // 1000 for them.
    let sources: Vec<_> = (0..30)
        .map(|i| source(SourceKind::GitCommit, &format!("commit {i}"), 1000))
        .collect();
    let outcome = local_dry_run(sources, 2_000);
    assert!(
        outcome.sources_dropped > 0,
        "should drop at least one source under tight budget"
    );
    assert_eq!(
        outcome.sources_collected,
        outcome.sources_sent + outcome.sources_dropped
    );
    assert!(outcome.dry_run);
    assert_eq!(outcome.sources_sent, 4);
    assert_eq!(outcome.estimated_input_tokens, 1000);
}

#[test]
fn pruning_keeps_what_matters_most() {
    let sources = vec![
        source(SourceKind::GitCommit, "c1", 400),
        source(SourceKind::ModuleHeader, "m1", 400),
        source(SourceKind::DocFile, "d1", 400),
        source(SourceKind::ProjectRules, "r1", 400),
        source(SourceKind::Readme, "README", 400),
        source(SourceKind::DocFile, "d2", 400),
    ];
    let (kept, dropped, tokens) = prune_sources_to_budget(sources, 1_400);
    let labels: Vec<&str> = kept.iter().map(|s| s.label.as_str()).collect();
    assert_eq!(labels, vec!["r1", "README", "d1", "d2"]);
    assert_eq!(dropped, 2);
    assert_eq!(tokens, 400);
    assert_eq!(SourceCounts::from_sources(&kept).doc_files, 2);
}

#[test]
fn a_budget_below_the_scaffolding_leaves_no_room() {
    let (kept, dropped, tokens) =
        prune_sources_to_budget(vec![source(SourceKind::Readme, "README", 400)], 999);
    assert!(kept.is_empty());
    assert_eq!(dropped, 1);
    assert_eq!(tokens, 0);
    // Three characters are no token, and still fit.
    let (kept, dropped, _) =
        prune_sources_to_budget(vec![source(SourceKind::Readme, "README", 3)], 0);
    assert_eq!(kept.len(), 1);
    assert_eq!(dropped, 0);
}

#[test]
fn tokens_are_counted_by_characters() {
    let text = "äöüß".repeat(10);
    let sources = vec![BootstrapSource {
        kind: SourceKind::Readme,
        label: "README".to_string(),
        text,
    }];
    assert_eq!(local_dry_run(sources, 150_000).estimated_input_tokens, 10);
}

fn host() -> HostAgent {
    HostAgent {
        name: "Host Agent".to_string(),
        spoken: "host agent".to_string(),
        dir: "host-agent".to_string(),
        settings: "~/.host/settings.json".to_string(),
        rules_file: "HOST.md".to_string(),
    }
}

fn outcome() -> BootstrapOutcome {
    BootstrapOutcome {
        sources_collected: 9,
        sources_sent: 8,
        sources_dropped: 1,
        sources_by_kind: SourceCounts {
            git_commits: 1,
            readme: 1,
            doc_files: 2,
            module_headers: 1,
            project_rules: 3,
        },
        estimated_input_tokens: 1234,
        pages_written: vec!["concepts/a.md".to_string(), "b.md".to_string()],
        rationale: "because".to_string(),
        dry_run: false,
    }
}

const FOOTER: &str = "\nWhat ai-memory knows now\n  \
    Only the sources listed above. NOT every file in your project,\n  \
    NOT every commit since project start, NOT runtime behaviour or\n  \
    test logs. As you use Host Agent (or another MCP agent) the\n  \
    lifecycle hooks will automatically capture your actual workflow,\n  \
    and consolidation will refine the wiki over time.\n";

#[test]
fn the_report_lists_sources_and_pages() {
    let want = format!(
        "\nBootstrap complete for ws/proj\n\n\
         Sources loaded into the LLM:\n\
         \x20 - 1 git commit summary\n\
         \x20 - README\n\
         \x20 - 2 doc files (under docs/)\n\
         \x20 - 1 Rust module header\n\
         \x20 - 3 project-rules files (HOST.md / AGENTS.md / ...)\n\
         \x20 -> ~1234 input tokens estimated (dropped 1 lower-priority source to stay under budget)\n\
         \nGenerated 2 wiki pages:\n\
         \x20 - concepts/a.md\n\
         \x20 - b.md\n\
         \nRationale: because\n{FOOTER}"
    );
    assert_eq!(human_report(&outcome(), &host(), "ws", "proj"), want);
    assert_eq!(
        full_report(&outcome(), &host(), "ws", "proj", "{}"),
        format!("{want}\n--- machine-readable ---\n{{}}\n")
    );
}

#[test]
fn the_report_of_a_dry_run_is_short() {
    let dry = local_dry_run(vec![], 10);
    assert_eq!(
        human_report(&dry, &host(), "w", "p"),
        format!(
            "\nDry-run complete for w/p\n\n\
             Sources loaded into the LLM:\n\
             \x20 -> ~0 input tokens estimated\n\
             \n(dry-run -- no LLM call, no pages written)\n{FOOTER}"
        )
    );
}

#[test]
fn the_report_counts_correctly() {
    let mut o = outcome();
    o.sources_by_kind.git_commits = 10;
    o.sources_dropped = 2;
    o.pages_written = vec!["only.md".to_string()];
    o.rationale = String::new();
    let text = human_report(&o, &host(), "w", "p");
    assert!(text.contains("  - 10 git commit summaries\n"));
    assert!(text.contains(" (dropped 2 lower-priority sources to stay under budget)\n"));
    assert!(text.contains("\nGenerated 1 wiki page:\n  - only.md\n"));
    assert!(!text.contains("Rationale"));
}

#[test]
fn the_named_directory_wins() {
    let t = resolve_repo(RepoProbe::Explicit {
        path: "/a".to_string(),
        dot_git: false,
    });
    assert_eq!((t.path.as_str(), t.has_git), ("/a", false));
    let t = resolve_repo(RepoProbe::Discovered {
        root: "/b".to_string(),
    });
    assert_eq!((t.path.as_str(), t.has_git), ("/b", true));
    let t = resolve_repo(RepoProbe::NoRepo {
        cwd: "/c".to_string(),
    });
    assert_eq!((t.path.as_str(), t.has_git), ("/c", false));
}

#[test]
fn commits_are_left_out_without_a_history() {
    let target = RepoTarget {
        path: "/p".to_string(),
        has_git: false,
    };
    let none = Exclusions {
        git: false,
        readme: false,
        docs: true,
        code: false,
    };
    let plan = plan_collection(&target, none);
    assert!(!plan.git && plan.readme && !plan.docs && plan.code);
    assert_eq!(
        plan.note.unwrap(),
        "note: no .git found at /p; bootstrapping from README/docs/rules only \
         (git-commit history skipped). Pass --repo-path or `git init` to include commits."
    );
    let plan = plan_collection(&target, Exclusions { git: true, ..none });
    assert!(!plan.git && plan.note.is_none());
    let with_git = RepoTarget {
        path: "/p".to_string(),
        has_git: true,
    };
    let plan = plan_collection(&with_git, none);
    assert!(plan.git && plan.note.is_none());
}

#[test]
fn a_dry_run_sends_nothing() {
    let sources = vec![source(SourceKind::Readme, "README", 40)];
    match after_collection(sources, 5_000, true) {
        AfterCollection::Report(o) => assert_eq!(o.estimated_input_tokens, 10),
        AfterCollection::Post(_) => panic!("a dry run must not be sent"),
    }
    let sources = vec![source(SourceKind::Readme, "README", 40)];
    match after_collection(sources, 0, false) {
        AfterCollection::Post(sent) => assert_eq!(sent.len(), 1),
        AfterCollection::Report(_) => panic!("must be sent"),
    }
}

#[test]
fn the_request_holds_all_fields() {
    let sources = serde_json::Value::Array(vec![]);
    let body = request_body("ws", "proj", sources, 1500, false, true);
    assert_eq!(
        body.to_string(),
        "{\"dry_run\":false,\"force\":true,\"max_input_tokens\":1500,\
         \"project\":\"proj\",\"sources\":[],\"workspace\":\"ws\"}"
    );
}
