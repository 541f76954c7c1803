//! What holds of the addresses and the output of every hook.

use crate::hook::{base_url, envelope_json, handoff_text, output_json, output_line, passed_on};
use crate::hook::{payload, post_text, starts_session, HookArgs};
use crate::json::{compact_text, empty_object, parsed, Json};
use crate::text_laws::law_trailing;
use vstd::prelude::*;

verus! {

/// The server's address is used as it is, but for the slashes at its end.
pub proof fn law_the_server_is_the_one_named(args: HookArgs)
    ensures
        base_url(args).len() <= args.server_url@.len(),
        base_url(args) == args.server_url@.take(base_url(args).len() as int),
        forall|i: int|
            base_url(args).len() <= i < args.server_url@.len() ==> #[trigger] args.server_url@[i]
                == '/',
        args.server_url@.len() > 0 && args.server_url@.last() != '/' ==> base_url(args)
            == args.server_url@,
{
    law_trailing(args.server_url@, '/');
}

/// An event is recorded under its own name and for its own agent, and a handoff
/// is fetched for that agent; what the marker adds comes last.
pub proof fn law_what_the_server_is_asked(args: HookArgs, query: Seq<char>)
    ensures
        post_text(args, query) == base_url(args) + "/hook?event="@ + args.event@ + "&agent="@
            + args.agent@ + query,
        handoff_text(args, query) == base_url(args) + "/handoff?agent="@ + args.agent@ + query,
        starts_session(args) <==> args.event@ == "session-start"@,
{
}

/// What a handoff is wrapped in: the event's name and the handoff itself, and
/// nothing else.
pub proof fn law_the_envelope(handoff: Seq<char>)
    ensures
        envelope_json(handoff) matches Json::Object(outer) && {
            &&& outer.contains_key("hookSpecificOutput"@)
            &&& forall|k: Seq<char>| #[trigger]
                outer.contains_key(k) ==> k == "hookSpecificOutput"@
            &&& outer["hookSpecificOutput"@] matches Json::Object(inner) && {
                &&& inner.contains_key("hookEventName"@) && inner["hookEventName"@] == Json::Text(
                    "SessionStart"@,
                )
                &&& inner.contains_key("additionalContext"@) && inner["additionalContext"@]
                    == Json::Text(handoff)
                &&& forall|k: Seq<char>| #[trigger]
                    inner.contains_key(k) ==> k == "hookEventName"@ || k == "additionalContext"@
            }
        },
{
    reveal_strlit("hookEventName");
    reveal_strlit("additionalContext");
    assert("hookEventName"@.len() == 13);
    assert("additionalContext"@.len() == 17);
}

/// Without a handoff the output is an empty object; with one it is that handoff
/// in its envelope. A handoff is passed on at the start of a session, and no
/// other time.
pub proof fn law_what_is_put_out(args: HookArgs, handoff: String)
    ensures
        output_line(None) == "{}"@,
        output_json(None) == Json::Object(empty_object()),
        output_line(Some(handoff)) == compact_text(envelope_json(handoff@)),
        output_json(Some(handoff)) == envelope_json(handoff@),
        passed_on(args, None) is None,
        args.event@ == "session-start"@ ==> passed_on(args, Some(handoff)) == Some(handoff),
        args.event@ != "session-start"@ ==> passed_on(args, Some(handoff)) is None,
{
}

/// A payload says what is read from it, and nothing where nothing can be read.
pub proof fn law_what_a_payload_says(text: Seq<char>)
    ensures
        parsed(text) matches Some(json) ==> payload(text) == json,
        parsed(text) is None ==> payload(text) == Json::Null,
{
}

} // verus!
