//! What holds of every consolidation.

use crate::consolidator::{commit_text, first_parts, nonblank_lines, one_line_text, session_page};
use crate::page::valid_page;
use crate::paths::{at, lemma_one_piece, lemma_spans_concat, shifted};
use crate::text::{at_most, joined, lemma_spans, spans, split_on, trimmed};
use vstd::prelude::*;

verus! {

proof fn lemma_trimmed_within(s: Seq<char>, c: char)
    requires
        !s.contains(c),
    ensures
        !trimmed(s).contains(c),
    decreases s.len(),
{
    if s.len() > 0 {
        assert forall|i: int| 0 <= i < s.len() implies s[i] != c by {
            assert(s.contains(s[i]));
        }
        lemma_trimmed_within(s.drop_first(), c);
        lemma_trimmed_within(s.drop_last(), c);
    }
}

proof fn lemma_joined_without(parts: Seq<Seq<char>>, sep: Seq<char>, c: char)
    requires
        !sep.contains(c),
        forall|i: int| 0 <= i < parts.len() ==> !(#[trigger] parts[i]).contains(c),
    ensures
        !joined(parts, sep).contains(c),
    decreases parts.len(),
{
    if parts.len() > 0 {
        lemma_joined_without(parts.drop_last(), sep, c);
        let head = joined(parts.drop_last(), sep);
        let whole = joined(parts, sep);
        assert(!parts[parts.len() - 1].contains(c));
        assert forall|i: int| 0 <= i < whole.len() implies whole[i] != c by {
            let start = if parts.len() == 1 {
                head
            } else {
                head + sep
            };
            assert(whole == start + parts.last());
            if i < head.len() {
                assert(head.contains(head[i]));
            } else if i < start.len() {
                assert(sep.contains(sep[i - head.len()]));
            } else {
                assert(parts.last().contains(parts.last()[i - start.len()]));
            }
        }
    }
}

/// What is quoted of an observation stands on one line and is at most 240
/// characters long.
pub proof fn law_quotes_are_short_lines(s: Seq<char>)
    ensures
        one_line_text(s).len() <= 240,
        !one_line_text(s).contains('\n'),
{
    reveal_strlit(" / ");
    let lines = split_on(s, '\n');
    let cut = lines.map_values(|line: Seq<char>| trimmed(line));
    let keep = |line: Seq<char>| line.len() > 0;
    let parts = first_parts(nonblank_lines(s), 3);
    lemma_spans(s, '\n');
    assert forall|i: int| 0 <= i < cut.len() implies !(#[trigger] cut[i]).contains('\n') by {
        let span = spans(s, '\n')[i];
        assert(lines[i] == s.subrange(span.0, span.1));
        assert(!lines[i].contains('\n')) by {
            assert forall|k: int| 0 <= k < lines[i].len() implies lines[i][k] != '\n' by {
                assert(s[span.0 + k] != '\n');
            }
        }
        lemma_trimmed_within(lines[i], '\n');
    }
    assert forall|i: int| 0 <= i < parts.len() implies !(#[trigger] parts[i]).contains('\n') by {
        let all = cut.filter(keep);
        assert(parts[i] == all[i]);
        assert(all.contains(all[i]));
        cut.lemma_filter_contains_rev(keep, all[i]);
    }
    lemma_joined_without(parts, " / "@, '\n');
    let whole = joined(parts, " / "@);
    assert forall|i: int| 0 <= i < at_most(whole, 240).len() implies at_most(whole, 240)[i]
        != '\n' by {
        assert(whole.contains(whole[i]));
    }
}

/// Every session whose identifier holds no slash has a page.
pub proof fn law_every_session_has_a_page(session: Seq<char>)
    requires
        !session.contains('/'),
    ensures
        valid_page(session_page(session)),
{
    reveal_strlit("sessions/");
    reveal_strlit("sessions");
    reveal_strlit(".md");
    reveal_strlit("..");
    let dir = "sessions"@;
    let name = session + ".md"@;
    let whole = session_page(session);
    assert(whole =~= dir.push('/') + name);
    assert(!dir.contains('/'));
    assert(!name.contains('/')) by {
        assert forall|i: int| 0 <= i < name.len() implies name[i] != '/' by {
            if i < session.len() {
                assert(session.contains(session[i]));
            }
        }
    }
    lemma_one_piece(dir, '/');
    lemma_one_piece(name, '/');
    lemma_spans_concat(dir, name, '/');
    assert(shifted(spans(name, '/'), 9) =~= seq![(9int, 9 + name.len() as int)]);
    assert(spans(whole, '/') =~= seq![(0int, 8int), (9int, 9 + name.len() as int)]);
    assert(at(whole, (0int, 8int)).len() == 8);
    assert(at(whole, (9int, 9 + name.len() as int)) =~= name);
    assert(name.last() == 'd');
    assert(".."@.last() == '.');
}

/// The message of the commit is short: at most eight characters of the
/// session and sixty of the title, besides its fixed words.
pub proof fn law_commit_messages_are_short(session: Seq<char>, title: Seq<char>)
    ensures
        commit_text(session, title).len() <= 91,
{
    reveal_strlit("consolidate(session ");
    reveal_strlit("): ");
}

} // verus!
