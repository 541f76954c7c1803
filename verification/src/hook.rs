//! One lifecycle event of an agent, passed on to the server.
//!
//! A hook must never fail its agent: whatever happens, one JSON object goes to
//! standard output.

use crate::json::{compact, compact_text, empty_object, json_of, no_fields, null_value};
use crate::json::{object_value, parse, parsed, plain, put, text_value, Json};
use crate::text::{same_text, trim_trailing, without_trailing};
use serde_json::Value;
use vstd::prelude::*;
use vstd::string::StringExecFns;

verus! {

/// What a hook is called with.
#[derive(Debug)]
pub struct HookArgs {
    pub server_url: String,
    pub auth_token: Option<String>,
    pub event: String,
    pub agent: String,
}

/// The address of the server, without slashes at its end.
pub open spec fn base_url(args: HookArgs) -> Seq<char> {
    without_trailing(args.server_url@, '/')
}

/// Where the event is recorded.
pub open spec fn post_text(args: HookArgs, query: Seq<char>) -> Seq<char> {
    base_url(args) + "/hook?event="@ + args.event@ + "&agent="@ + args.agent@ + query
}

/// Where a pending handoff is fetched from.
pub open spec fn handoff_text(args: HookArgs, query: Seq<char>) -> Seq<char> {
    base_url(args) + "/handoff?agent="@ + args.agent@ + query
}

/// The event is the start of a session.
pub open spec fn starts_session(args: HookArgs) -> bool {
    args.event@ == "session-start"@
}

/// What the event's payload says, or nothing where it is not JSON.
pub open spec fn payload(text: Seq<char>) -> Json {
    match parsed(text) {
        Some(json) => json,
        None => Json::Null,
    }
}

/// The payload of the event.
pub fn payload_json(text: &str) -> (r: Value)
    ensures
        json_of(r) == payload(text@),
{
    match parse(text) {
        Ok(v) => v,
        Err(_) => null_value(),
    }
}

/// Where the event is recorded. `query` is what the project's marker adds.
pub fn post_url(args: &HookArgs, query: &str) -> (r: String)
    ensures
        r@ == post_text(*args, query@),
{
    let mut r = trim_trailing(args.server_url.as_str(), '/');
    r.append("/hook?event=");
    r.append(args.event.as_str());
    r.append("&agent=");
    r.append(args.agent.as_str());
    r.append(query);
    r
}

/// Where a pending handoff is fetched from.
pub fn handoff_url(args: &HookArgs, query: &str) -> (r: String)
    ensures
        r@ == handoff_text(*args, query@),
{
    let mut r = trim_trailing(args.server_url.as_str(), '/');
    r.append("/handoff?agent=");
    r.append(args.agent.as_str());
    r.append(query);
    r
}

/// Whether the event asks for a pending handoff: only the start of a session
/// does.
pub fn wants_handoff(args: &HookArgs) -> (r: bool)
    ensures
        r == starts_session(*args),
{
    same_text(args.event.as_str(), "session-start")
}

/// A handoff in the form in which the agent takes it as context.
pub open spec fn envelope_json(handoff: Seq<char>) -> Json {
    let inner = empty_object().insert("hookEventName"@, Json::Text("SessionStart"@)).insert(
        "additionalContext"@,
        Json::Text(handoff),
    );
    Json::Object(empty_object().insert("hookSpecificOutput"@, Json::Object(inner)))
}

/// A handoff in the form in which the agent takes it as context.
pub fn envelope(handoff: &str) -> (r: Value)
    ensures
        json_of(r) == envelope_json(handoff@),
{
    let mut inner = no_fields();
    put(&mut inner, "hookEventName", text_value("SessionStart"));
    put(&mut inner, "additionalContext", text_value(handoff));
    let mut outer = no_fields();
    put(&mut outer, "hookSpecificOutput", object_value(inner));
    object_value(outer)
}

/// The line for standard output: the handoff where there is one, else an empty
/// object.
pub open spec fn output_line(handoff: Option<String>) -> Seq<char> {
    match handoff {
        Some(text) => compact_text(envelope_json(text@)),
        None => "{}"@,
    }
}

/// What that line says.
pub open spec fn output_json(handoff: Option<String>) -> Json {
    match handoff {
        Some(text) => envelope_json(text@),
        None => Json::Object(empty_object()),
    }
}

/// What goes to standard output: the handoff where there is one, else an empty
/// object. Either is one JSON object that reads back as it was written.
pub fn hook_output(handoff: Option<String>) -> (r: String)
    ensures
        r@ == output_line(handoff) + "\n"@,
        parsed(output_line(handoff)) == Some(output_json(handoff)),
{
    let value = match &handoff {
        Some(text) => envelope(text.as_str()),
        None => object_value(no_fields()),
    };
    proof {
        reveal_with_fuel(plain, 4);
        reveal_strlit("hookSpecificOutput");
        reveal_strlit("hookEventName");
        reveal_strlit("additionalContext");
        assert(json_of(value) == output_json(handoff));
        assert(plain(json_of(value), 8));
    }
    let mut r = compact(&value);
    r.append("\n");
    r
}

/// A request that a hook makes.
#[derive(Debug)]
pub enum HookRequest {
    /// Record the event at this address.
    Post(String),
    /// Fetch a pending handoff from this address.
    Get(String),
}

/// A [`HookRequest`] as a mathematical value.
pub enum Request {
    Post(Seq<char>),
    Get(Seq<char>),
}

impl View for HookRequest {
    type V = Request;

    open spec fn view(&self) -> Request {
        match *self {
            HookRequest::Post(url) => Request::Post(url@),
            HookRequest::Get(url) => Request::Get(url@),
        }
    }
}

/// The requests of one run, in their order.
pub open spec fn run_requests(args: HookArgs, query: Seq<char>) -> Seq<Request> {
    if starts_session(args) {
        seq![Request::Post(post_text(args, query)), Request::Get(handoff_text(args, query))]
    } else {
        seq![Request::Post(post_text(args, query))]
    }
}

/// The handoff that one run passes on, where `fetched` is what was fetched.
pub open spec fn passed_on(args: HookArgs, fetched: Option<String>) -> Option<String> {
    if starts_session(args) {
        fetched
    } else {
        None
    }
}

/// The requests of one run, in their order: the event is recorded, and at the
/// start of a session a pending handoff is fetched.
pub fn hook_requests(args: &HookArgs, query: &str) -> (r: Vec<HookRequest>)
    ensures
        r@.map_values(|q: HookRequest| q@) == run_requests(*args, query@),
{
    let mut r: Vec<HookRequest> = Vec::new();
    r.push(HookRequest::Post(post_url(args, query)));
    if wants_handoff(args) {
        r.push(HookRequest::Get(handoff_url(args, query)));
    }
    assert(r@.map_values(|q: HookRequest| q@) =~= run_requests(*args, query@));
    r
}

/// What one run writes to standard output, whatever came of its requests: the
/// handoff only at the start of a session and where one was fetched, else an
/// empty object.
pub fn run_output(args: &HookArgs, fetched: Option<String>) -> (r: String)
    ensures
        r@ == output_line(passed_on(*args, fetched)) + "\n"@,
        parsed(output_line(passed_on(*args, fetched))) == Some(
            output_json(passed_on(*args, fetched)),
        ),
{
    if wants_handoff(args) {
        hook_output(fetched)
    } else {
        hook_output(None)
    }
}

/// One run of a hook records the event once, and fetches a handoff exactly at
/// the start of a session, and then once. The handoff goes to the agent exactly
/// where that brought one; in every other case the output is an empty object.
pub proof fn law_one_run_of_a_hook(args: HookArgs, query: Seq<char>, fetched: Option<String>)
    ensures
        ({
            let requests = run_requests(args, query);
            &&& requests.len() > 0
            &&& requests[0] == Request::Post(post_text(args, query))
            &&& forall|i: int| 0 < i < requests.len() ==> !((#[trigger] requests[i]) is Post)
            &&& starts_session(args) <==> exists|i: int|
                0 <= i < requests.len() && (#[trigger] requests[i]) is Get
            &&& forall|i: int|
                0 <= i < requests.len() && (#[trigger] requests[i]) is Get ==> i == 1
                    && requests[i] == Request::Get(handoff_text(args, query))
            &&& starts_session(args) && fetched is Some ==> output_json(passed_on(args, fetched))
                == envelope_json(fetched->Some_0@)
            &&& !(starts_session(args) && fetched is Some) ==> {
                &&& output_json(passed_on(args, fetched)) == Json::Object(empty_object())
                &&& output_line(passed_on(args, fetched)) == "{}"@
            }
            &&& output_json(passed_on(args, fetched)) is Object
        }),
{
    if starts_session(args) {
        assert(run_requests(args, query)[1] is Get);
    }
}

/// The addresses never hold a doubled slash behind the server's own.
pub proof fn law_base_url_has_no_trailing_slash(args: HookArgs)
    ensures
        base_url(args).len() == 0 || base_url(args).last() != '/',
{
    lemma_no_trailing(args.server_url@, '/');
}

proof fn lemma_no_trailing(s: Seq<char>, c: char)
    ensures
        without_trailing(s, c).len() == 0 || without_trailing(s, c).last() != c,
    decreases s.len(),
{
    if s.len() > 0 && s.last() == c {
        lemma_no_trailing(s.drop_last(), c);
    }
}

} // verus!
