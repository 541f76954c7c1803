use ai_memory::serve::{compared, context_of, effective_bind, ServeError, ServeOptions, Stage, Startup};
use ai_memory::serve::{StepResult, TransportKind};

const STDIO: ServeOptions = ServeOptions {
    no_watcher: false,
    transport: TransportKind::Stdio,
};

const BARE_HTTP: ServeOptions = ServeOptions {
    no_watcher: true,
    transport: TransportKind::Http,
};

fn until(stage: Stage, options: ServeOptions) -> Startup {
    let mut s = Startup::begin();
    while s.stage != stage {
        s = s.advance(StepResult::Done, options).unwrap();
    }
    s
}

#[test]
fn a_full_start_builds_everything() {
    let s = until(Stage::Serve, STDIO);
    assert!(s.embedder && s.watcher && s.consolidator);
    let s = s.advance(StepResult::Done, STDIO).unwrap();
    assert_eq!(s.stage, Stage::Stopped);
    let s = s.advance(StepResult::Done, STDIO).unwrap();
    assert_eq!(s.stage, Stage::Stopped);
}

#[test]
fn everything_optional_can_be_absent() {
    let s = until(Stage::ReadEmbedderConfig, BARE_HTTP);
    let s = s.advance(StepResult::NotConfigured, BARE_HTTP).unwrap();
    assert_eq!(s.stage, Stage::ReadLlmConfig);
    let s = s.advance(StepResult::NotConfigured, BARE_HTTP).unwrap();
    assert_eq!(s.stage, Stage::Bind);
    assert!(!s.embedder && !s.watcher && !s.consolidator);
    let s = s.advance(StepResult::Done, BARE_HTTP).unwrap();
    assert_eq!(s.stage, Stage::Serve);
    let s = until(Stage::ReadEmbedderConfig, STDIO);
    let s = s.advance(StepResult::NotConfigured, STDIO).unwrap();
    assert_eq!(s.stage, Stage::StartWatcher);
}

#[test]
fn mismatched_embeddings_stop_the_start() {
    let s = until(Stage::CheckEmbeddings, STDIO);
    let e = s
        .advance(StepResult::Mismatch("[(\"openai\", 3)]".to_string()), STDIO)
        .unwrap_err();
    assert_eq!(
        e.message(),
        "embedding (provider, model, dim) mismatch with stored data: [(\"openai\", 3)] \
         — run `ai-memory embed --reembed` to migrate"
    );
}

#[test]
fn a_failing_step_stops_the_start() {
    let s = until(Stage::OpenWiki, STDIO);
    match s.advance(StepResult::Failed("disk".to_string()), STDIO) {
        Err(ServeError::StepFailed(stage, message)) => {
            assert_eq!(stage, Stage::OpenWiki);
            assert_eq!(message, "disk");
            assert_eq!(ServeError::StepFailed(stage, message).message(), "disk");
        }
        _ => panic!("must fail"),
    }
    for step in [StepResult::NotConfigured, StepResult::Mismatch(String::new())] {
        let e = Startup::begin().advance(step, STDIO).unwrap_err();
        assert!(matches!(e, ServeError::OutOfOrder(Stage::OpenStore)));
        assert_eq!(e.message(), "startup step answered out of order");
    }
}

#[test]
fn failures_are_put_in_context() {
    let context = |stage: Stage| context_of(stage, "/data", "0.0.0.0:1");
    assert_eq!(
        context(Stage::OpenStore).as_deref(),
        Some("opening store at /data")
    );
    assert_eq!(context(Stage::Bind).as_deref(), Some("binding 0.0.0.0:1"));
    assert_eq!(
        context(Stage::CompileSanitizer).as_deref(),
        Some("compiling sanitizer.extra_patterns from config")
    );
    assert_eq!(
        context(Stage::BuildEmbedder).as_deref(),
        Some("building embedder from env")
    );
    assert_eq!(
        context(Stage::BuildLlm).as_deref(),
        Some("building LLM provider from env")
    );
    assert_eq!(context(Stage::MakeProject), None);
}

#[test]
fn the_address_asked_for_wins() {
    let config = || "127.0.0.1:7777".to_string();
    assert_eq!(effective_bind(None, config()), "127.0.0.1:7777");
    assert_eq!(effective_bind(Some("h:1".to_string()), config()), "h:1");
}

#[test]
fn stored_embeddings_agree_only_where_none_disagrees() {
    assert!(matches!(
        compared(&vec![], "[]".to_string()),
        StepResult::Done
    ));
    match compared(&vec!["a".to_string()], "[a]".to_string()) {
        StepResult::Mismatch(shown) => assert_eq!(shown, "[a]"),
        _ => panic!("one disagrees"),
    }
}
