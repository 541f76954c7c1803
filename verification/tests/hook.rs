use ai_memory::hook::{envelope, handoff_url, hook_output, payload_json, post_url, wants_handoff};
use ai_memory::hook::{hook_requests, run_output, HookArgs, HookRequest};

fn args(event: &str) -> HookArgs {
    HookArgs {
        server_url: "http://127.0.0.1:7777//".to_string(),
        auth_token: None,
        event: event.to_string(),
        agent: "codex".to_string(),
    }
}

#[test]
fn urls_have_no_doubled_slash() {
    assert_eq!(
        post_url(&args("stop"), "&ws=a"),
        "http://127.0.0.1:7777/hook?event=stop&agent=codex&ws=a"
    );
    assert_eq!(
        handoff_url(&args("session-start"), ""),
        "http://127.0.0.1:7777/handoff?agent=codex"
    );
}

#[test]
fn only_the_start_of_a_session_asks_for_a_handoff() {
    assert!(wants_handoff(&args("session-start")));
    assert!(!wants_handoff(&args("session-end")));
}

#[test]
fn a_payload_that_is_not_json_counts_as_null() {
    assert_eq!(payload_json("{\"cwd\":\"/p\"}")["cwd"], "/p");
    assert!(payload_json("not json").is_null());
    assert!(payload_json("").is_null());
}

#[test]
fn the_output_is_always_one_json_object() {
    assert_eq!(hook_output(None), "{}\n");
    let text = hook_output(Some("line 1\n\"two\"".to_string()));
    assert_eq!(
        text,
        "{\"hookSpecificOutput\":{\"additionalContext\":\"line 1\\n\\\"two\\\"\",\
         \"hookEventName\":\"SessionStart\"}}\n"
    );
    assert!(payload_json(&text).is_object());
    let read = payload_json(&text);
    assert_eq!(
        read["hookSpecificOutput"]["additionalContext"],
        "line 1\n\"two\""
    );
    assert_eq!(
        envelope("h")["hookSpecificOutput"]["additionalContext"],
        "h"
    );
}

#[test]
fn a_run_records_the_event_and_fetches_only_at_the_start() {
    let start = hook_requests(&args("session-start"), "&ws=a");
    assert_eq!(start.len(), 2);
    match (&start[0], &start[1]) {
        (HookRequest::Post(p), HookRequest::Get(g)) => {
            assert_eq!(
                p,
                "http://127.0.0.1:7777/hook?event=session-start&agent=codex&ws=a"
            );
            assert_eq!(g, "http://127.0.0.1:7777/handoff?agent=codex&ws=a");
        }
        _ => panic!("a record, then a fetch"),
    }
    let stop = hook_requests(&args("stop"), "");
    assert_eq!(stop.len(), 1);
    assert!(matches!(stop[0], HookRequest::Post(_)));
}

#[test]
fn a_handoff_is_passed_on_only_at_the_start() {
    let handoff = || Some("h".to_string());
    assert_eq!(
        run_output(&args("session-start"), handoff()),
        "{\"hookSpecificOutput\":{\"additionalContext\":\"h\",\
         \"hookEventName\":\"SessionStart\"}}\n"
    );
    assert_eq!(run_output(&args("session-start"), None), "{}\n");
    assert_eq!(run_output(&args("stop"), handoff()), "{}\n");
    assert_eq!(run_output(&args("stop"), None), "{}\n");
}
