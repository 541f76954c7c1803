//! What holds of every prompt, page and commit of a consolidation.

use crate::consolidator::{commit_text, first_parts, frontmatter_json, log_text, nonblank_lines};
use crate::consolidator::{observation_lines, one_line_text, prompt_text, session_page};
use crate::consolidator::{ConsolidatedPage, ConsolidatorError, Observation, SYSTEM_PROMPT};
use crate::consolidator_laws::law_quotes_are_short_lines;
use crate::install_hooks_laws::{is_item, items, lemma_no_break_in_sum, lemma_plain_line};
use crate::install_hooks_laws::{lemma_split_concat, lemma_split_lines, lemma_unlines_push};
use crate::install_hooks_laws::{one_line, unlines};
use crate::json::Json;
use crate::page::MemoryError;
use crate::text::{at_most, joined, split_on, trimmed};
use crate::text_laws::{law_joining, law_splitting};
use vstd::prelude::*;

verus! {

/// The line under which an observation is listed.
pub open spec fn item_line(o: Observation) -> Seq<char> {
    "- "@ + o.kind@ + " | "@ + one_line_text(o.title@)
}

/// Every observation is quoted in the prompt, in order and none left out: the
/// prompt for one more observation is the prompt for those before it, followed
/// by the kind and title of that one, and by its body where it has one. The
/// present page comes behind all of them, where there is one.
pub proof fn law_every_observation_is_quoted(
    session: Seq<char>,
    observations: Seq<Observation>,
    next: Observation,
    blank: Seq<char>,
    page: Seq<char>,
)
    requires
        trimmed(blank).len() == 0,
        trimmed(page).len() > 0,
    ensures
        prompt_text(session, Seq::empty(), blank) == "Session id: "@ + session
            + "\nObservations (in order):\n\n"@,
        trimmed(next.body@).len() == 0 ==> prompt_text(session, observations.push(next), blank)
            == prompt_text(session, observations, blank) + "- "@ + next.kind@ + " | "@
            + one_line_text(next.title@) + "\n"@,
        trimmed(next.body@).len() > 0 ==> prompt_text(session, observations.push(next), blank)
            == prompt_text(session, observations, blank) + "- "@ + next.kind@ + " | "@
            + one_line_text(next.title@) + "\n"@ + "    body: "@ + one_line_text(next.body@)
            + "\n"@,
        prompt_text(session, observations, page) == prompt_text(session, observations, blank)
            + "\nCurrent (heuristic) page body:\n\n```\n"@ + page + "\n```\n"@,
{
    let more = observations.push(next);
    assert(more.drop_last() =~= observations);
    assert(log_text(more) == log_text(observations) + observation_lines(next));
    assert(prompt_text(session, Seq::empty(), blank) =~= "Session id: "@ + session
        + "\nObservations (in order):\n\n"@);
    let line = "- "@ + next.kind@ + " | "@ + one_line_text(next.title@) + "\n"@;
    if trimmed(next.body@).len() == 0 {
        assert(observation_lines(next) =~= line);
        assert(prompt_text(session, more, blank) =~= prompt_text(session, observations, blank)
            + "- "@ + next.kind@ + " | "@ + one_line_text(next.title@) + "\n"@);
    } else {
        assert(observation_lines(next) =~= line + "    body: "@ + one_line_text(next.body@)
            + "\n"@);
        assert(prompt_text(session, more, blank) =~= prompt_text(session, observations, blank)
            + "- "@ + next.kind@ + " | "@ + one_line_text(next.title@) + "\n"@ + "    body: "@
            + one_line_text(next.body@) + "\n"@);
    }
    assert(prompt_text(session, observations, page) =~= prompt_text(session, observations, blank)
        + "\nCurrent (heuristic) page body:\n\n```\n"@ + page + "\n```\n"@);
}

/// The log for the first `i + 1` observations is that for the first `i`, followed
/// by a line of its own for the next.
pub proof fn law_the_log_grows_with_each_observation(observations: Seq<Observation>, i: int)
    requires
        0 <= i < observations.len(),
    ensures
        exists|rest: Seq<char>|
            log_text(observations.take(i + 1)) == #[trigger] (log_text(observations.take(i))
                + item_line(observations[i]) + "\n"@ + rest),
        log_text(observations.take(i + 1)).len() > log_text(observations.take(i)).len(),
        log_text(observations.take(0)) == Seq::<char>::empty(),
{
    let next = observations[i];
    assert(observations.take(i + 1).drop_last() =~= observations.take(i));
    let before = log_text(observations.take(i));
    let rest = if trimmed(next.body@).len() > 0 {
        "    body: "@ + one_line_text(next.body@) + "\n"@
    } else {
        Seq::empty()
    };
    reveal_strlit("- ");
    assert(observation_lines(next) =~= item_line(next) + "\n"@ + rest);
    assert(log_text(observations.take(i + 1)) =~= before + item_line(next) + "\n"@ + rest);
    assert(observations.take(0) =~= Seq::<Observation>::empty());
}

/// The lines of the log.
spec fn log_lines(observations: Seq<Observation>) -> Seq<Seq<char>>
    decreases observations.len(),
{
    if observations.len() == 0 {
        Seq::empty()
    } else {
        let before = log_lines(observations.drop_last()).push(item_line(observations.last()));
        if trimmed(observations.last().body@).len() > 0 {
            before.push("    body: "@ + one_line_text(observations.last().body@))
        } else {
            before
        }
    }
}

proof fn lemma_log_lines(observations: Seq<Observation>)
    requires
        forall|i: int|
            0 <= i < observations.len() ==> one_line((#[trigger] observations[i]).kind@),
    ensures
        log_text(observations) == unlines(log_lines(observations)),
        forall|i: int|
            0 <= i < log_lines(observations).len() ==> one_line(
                #[trigger] log_lines(observations)[i],
            ),
        log_lines(observations).filter(|line: Seq<char>| is_item(line)) == Seq::new(
            observations.len(),
            |i: int| item_line(observations[i]),
        ),
    decreases observations.len(),
{
    reveal(Seq::filter);
    let f = |line: Seq<char>| is_item(line);
    let all = Seq::new(observations.len(), |i: int| item_line(observations[i]));
    if observations.len() == 0 {
        assert(log_lines(observations).filter(f) =~= all);
    } else {
        let rest = observations.drop_last();
        let o = observations.last();
        assert(observations[observations.len() - 1] == o);
        assert forall|i: int| 0 <= i < rest.len() implies one_line((#[trigger] rest[i]).kind@) by {
            assert(rest[i] == observations[i]);
        }
        lemma_log_lines(rest);
        let before = log_lines(rest);
        let line = item_line(o);
        reveal_strlit("- ");
        reveal_strlit(" | ");
        reveal_strlit("    body: ");
        law_quotes_are_short_lines(o.title@);
        law_quotes_are_short_lines(o.body@);
        assert(one_line("- "@));
        assert(one_line(" | "@));
        lemma_no_break_in_sum("- "@, o.kind@);
        lemma_no_break_in_sum("- "@ + o.kind@, " | "@);
        lemma_no_break_in_sum("- "@ + o.kind@ + " | "@, one_line_text(o.title@));
        assert(line.take(2) =~= "- "@);
        assert(is_item(line));
        let mid = before.push(line);
        lemma_unlines_push(before, line);
        assert(mid.drop_last() =~= before);
        assert(mid.filter(f) == before.filter(f).push(line));
        let earlier = Seq::new(rest.len(), |i: int| item_line(rest[i]));
        assert(all =~= earlier.push(line));
        if trimmed(o.body@).len() > 0 {
            let body = "    body: "@ + one_line_text(o.body@);
            assert(one_line("    body: "@));
            lemma_no_break_in_sum("    body: "@, one_line_text(o.body@));
            assert(body[0] == ' ');
            lemma_plain_line(body);
            lemma_unlines_push(mid, body);
            assert(mid.push(body).drop_last() =~= mid);
            assert(mid.push(body).filter(f) == mid.filter(f));
            assert(observation_lines(o) =~= line + "\n"@ + body + "\n"@);
            assert(log_text(observations) =~= unlines(mid.push(body)));
        } else {
            assert(observation_lines(o) =~= line + "\n"@);
            assert(log_text(observations) =~= unlines(mid));
        }
    }
}

/// The log lists as many items as there are observations, each by its kind and
/// title and in their order, where no kind holds a line break.
pub proof fn law_the_log_lists_each_observation_once(observations: Seq<Observation>)
    requires
        forall|i: int|
            0 <= i < observations.len() ==> one_line((#[trigger] observations[i]).kind@),
    ensures
        items(log_text(observations)).len() == observations.len(),
        forall|i: int|
            0 <= i < observations.len() ==> #[trigger] items(log_text(observations))[i]
                == item_line(observations[i]),
{
    reveal(Seq::filter);
    let f = |line: Seq<char>| is_item(line);
    lemma_log_lines(observations);
    let lines = log_lines(observations);
    let end = Seq::<char>::empty();
    lemma_split_lines(lines, end);
    assert(unlines(lines) + end =~= log_text(observations));
    lemma_plain_line(end);
    assert(lines.push(end).drop_last() =~= lines);
    assert(items(log_text(observations)) == lines.filter(f));
}

/// The lines of a text that are not blank are those of its parts, one after the
/// other; a single line counts, trimmed, unless it is blank.
pub proof fn law_nonblank_lines(a: Seq<char>, b: Seq<char>)
    ensures
        nonblank_lines(a.push('\n') + b) == nonblank_lines(a) + nonblank_lines(b),
        !a.contains('\n') && trimmed(a).len() > 0 ==> nonblank_lines(a) == seq![trimmed(a)],
        !a.contains('\n') && trimmed(a).len() == 0 ==> nonblank_lines(a) == Seq::<
            Seq<char>,
        >::empty(),
{
    let f = |line: Seq<char>| line.len() > 0;
    let t = |line: Seq<char>| trimmed(line);
    lemma_split_concat(a, b);
    let x = split_on(a, '\n').map_values(t);
    let y = split_on(b, '\n').map_values(t);
    assert(split_on(a.push('\n') + b, '\n').map_values(t) =~= x + y);
    Seq::filter_distributes_over_add(x, y, f);
    if !a.contains('\n') {
        law_splitting(a, b);
        assert(x =~= seq![trimmed(a)]);
        reveal(Seq::filter);
        assert(x.drop_last() =~= Seq::<Seq<char>>::empty());
        assert(x.drop_last().filter(f) =~= Seq::<Seq<char>>::empty());
        if trimmed(a).len() > 0 {
            assert(x.filter(f) =~= seq![trimmed(a)]);
        }
    }
}

/// A quotation is the first three lines that are not blank, or as many as there
/// are, with a slash between them, cut at 240 characters.
pub proof fn law_a_quotation(s: Seq<char>)
    ensures
        ({
            let lines = nonblank_lines(s);
            &&& lines.len() == 0 ==> one_line_text(s) == Seq::<char>::empty()
            &&& lines.len() == 1 ==> one_line_text(s) == at_most(lines[0], 240)
            &&& lines.len() == 2 ==> one_line_text(s) == at_most(
                lines[0] + " / "@ + lines[1],
                240,
            )
            &&& lines.len() >= 3 ==> one_line_text(s) == at_most(
                lines[0] + " / "@ + lines[1] + " / "@ + lines[2],
                240,
            )
        }),
{
    let lines = nonblank_lines(s);
    let parts = first_parts(lines, 3);
    if lines.len() == 0 {
        assert(joined(parts, " / "@) =~= Seq::<char>::empty());
    } else {
        let one = seq![lines[0]];
        law_joining(one, lines[0], " / "@);
        if lines.len() == 1 {
            assert(parts =~= one);
        } else {
            let two = one.push(lines[1]);
            law_joining(one, lines[1], " / "@);
            if lines.len() == 2 {
                assert(parts =~= two);
            } else {
                law_joining(two, lines[2], " / "@);
                assert(parts =~= two.push(lines[2]));
            }
        }
    }
}

/// The file of a consolidated page says its title, that it is episodic and that
/// it is consolidated, and names all its tags where it has any; it says nothing
/// else.
pub proof fn law_what_a_page_says_of_itself(page: ConsolidatedPage)
    ensures
        frontmatter_json(page) matches Json::Object(fields) && {
            &&& fields.contains_key("title"@) && fields["title"@] == Json::Text(page.title@)
            &&& fields.contains_key("tier"@) && fields["tier"@] == Json::Text("episodic"@)
            &&& fields.contains_key("consolidated"@) && fields["consolidated"@] == Json::Bool(true)
            &&& fields.contains_key("tags"@) <==> page.tags@.len() > 0
            &&& page.tags@.len() > 0 ==> (fields["tags"@] matches Json::List(tags) && tags.len()
                == page.tags@.len() && forall|i: int|
                0 <= i < tags.len() ==> #[trigger] tags[i] == Json::Text(page.tags@[i]@))
            &&& forall|k: Seq<char>| #[trigger]
                fields.contains_key(k) ==> k == "title"@ || k == "tier"@ || k == "consolidated"@
                    || k == "tags"@
        },
{
    reveal_strlit("title");
    reveal_strlit("tier");
    reveal_strlit("tags");
    reveal_strlit("consolidated");
    assert("title"@.len() == 5);
    assert("tier"@.len() == 4);
    assert("tags"@.len() == 4);
    assert("tier"@[1] == 'i');
    assert("tags"@[1] == 'a');
    assert("consolidated"@.len() == 12);
}

/// The page of a session is named after all of its identifier: different
/// sessions have different pages.
pub proof fn law_each_session_has_its_own_page(a: Seq<char>, b: Seq<char>)
    ensures
        session_page(a) == "sessions/"@ + a + ".md"@,
        session_page(a) == session_page(b) <==> a == b,
{
    reveal_strlit("sessions/");
    reveal_strlit(".md");
    let x = session_page(a);
    let y = session_page(b);
    if x == y {
        assert(x.len() == a.len() + 12);
        assert(y.len() == b.len() + 12);
        assert forall|i: int| 0 <= i < a.len() implies a[i] == b[i] by {
            assert(x[i + 9] == a[i]);
            assert(y[i + 9] == b[i]);
        }
        assert(a =~= b);
    }
}

/// The message of a commit names the first eight characters of the session and
/// the first sixty of the title, and nothing else of either.
pub proof fn law_what_a_commit_says(session: Seq<char>, title: Seq<char>)
    ensures
        session.len() <= 8 && title.len() <= 60 ==> commit_text(session, title)
            == "consolidate(session "@ + session + "): "@ + title,
        session.len() > 8 ==> commit_text(session, title) == commit_text(session.take(8), title),
        title.len() > 60 ==> commit_text(session, title) == commit_text(session, title.take(60)),
{
    assert(session.len() <= 8 ==> at_most(session, 8) == session);
    if session.len() > 8 {
        assert(at_most(session.take(8), 8) == session.take(8));
    }
    if title.len() > 60 {
        assert(at_most(title.take(60), 60) == title.take(60));
    }
}

/// An error is told in the words of what failed; those of the library's own say
/// which session or which path.
pub proof fn law_errors_in_words(e: ConsolidatorError)
    ensures
        match e {
            ConsolidatorError::Memory(MemoryError::InvalidPagePath(text)) => e.words()
                == "invalid page path: "@ + text@,
            ConsolidatorError::Store(text) => e.words() == text@,
            ConsolidatorError::Wiki(text) => e.words() == text@,
            ConsolidatorError::Llm(text) => e.words() == text@,
            ConsolidatorError::Serde(text) => e.words() == "serde: "@ + text@,
            ConsolidatorError::SessionNotFound(id) => e.words() == "session not found: "@
                + id.text@,
            ConsolidatorError::EmptySession(id) => e.words() == "session "@ + id.text@
                + " has no observations"@,
        },
{
}

/// What the model is told, word for word.
pub proof fn law_what_the_model_is_told()
    ensures
        SYSTEM_PROMPT@
            == "You are the maintainer of a Karpathy-style LLM wiki for a software engineer. You receive the chronological observation log of one coding-agent session plus the current heuristic page body. Compile a clean, durable markdown page that future agents and the user can read to recover context.\n\nRules:\n1. Title: short, descriptive (<= 80 chars). No filler.\n2. Body: well-formed markdown. Use sections (## Heading) when useful.\n3. Focus on decisions made, problems encountered, code/file references, and open questions.\n4. Do NOT include redundant per-tool-call detail. Aggregate.\n5. Do NOT echo timestamps or session ids (frontmatter already has them).\n6. Tags: 0-5 short kebab-case tags surfaced to frontmatter.\n"@,
{
}

} // verus!
