//! What holds of the printed suggestions, line by line.

use crate::install_hooks::{agent_head, agent_text, is_script, script_lines, ListedFile};
use crate::paths::{lemma_one_piece, lemma_spans_concat, shifted};
use crate::text::{begins_with, lemma_spans, spans, split_on};
use vstd::prelude::*;

verus! {

/// The lines, each with its line break.
pub open spec fn unlines(lines: Seq<Seq<char>>) -> Seq<char>
    decreases lines.len(),
{
    if lines.len() == 0 {
        Seq::empty()
    } else {
        unlines(lines.drop_last()) + lines.last() + "\n"@
    }
}

/// The line holds no line break.
pub open spec fn one_line(s: Seq<char>) -> bool {
    !s.contains('\n')
}

/// The line lists something.
pub open spec fn is_item(line: Seq<char>) -> bool {
    begins_with(line, "- "@)
}

/// The items among the lines of a text.
pub open spec fn items(text: Seq<char>) -> Seq<Seq<char>> {
    split_on(text, '\n').filter(|line: Seq<char>| is_item(line))
}

/// The line for each script, in their order.
pub open spec fn script_items(listing: Seq<ListedFile>) -> Seq<Seq<char>>
    decreases listing.len(),
{
    if listing.len() == 0 {
        Seq::empty()
    } else if is_script(listing.last()) {
        script_items(listing.drop_last()).push("- "@ + listing.last().path@)
    } else {
        script_items(listing.drop_last())
    }
}

pub proof fn lemma_split_concat(a: Seq<char>, b: Seq<char>)
    ensures
        split_on(a.push('\n') + b, '\n') == split_on(a, '\n') + split_on(b, '\n'),
{
    let whole = a.push('\n') + b;
    let n = a.len() as int + 1;
    lemma_spans_concat(a, b, '\n');
    lemma_spans(a, '\n');
    lemma_spans(b, '\n');
    let left = split_on(whole, '\n');
    let right = split_on(a, '\n') + split_on(b, '\n');
    let m = spans(a, '\n').len() as int;
    assert(left.len() == right.len());
    assert forall|i: int| 0 <= i < left.len() implies left[i] == right[i] by {
        if i < m {
            let s = spans(a, '\n')[i];
            assert(spans(whole, '\n')[i] == s);
            assert(whole.subrange(s.0, s.1) =~= a.subrange(s.0, s.1));
        } else {
            let s = spans(b, '\n')[i - m];
            assert(spans(whole, '\n')[i] == shifted(spans(b, '\n'), n)[i - m]);
            assert(spans(whole, '\n')[i] == (s.0 + n, s.1 + n));
            assert(whole.subrange(s.0 + n, s.1 + n) =~= b.subrange(s.0, s.1));
        }
    }
    assert(left =~= right);
}

pub proof fn lemma_split_lines(lines: Seq<Seq<char>>, last: Seq<char>)
    requires
        forall|i: int| 0 <= i < lines.len() ==> one_line(#[trigger] lines[i]),
        one_line(last),
    ensures
        split_on(unlines(lines) + last, '\n') == lines.push(last),
    decreases lines.len(),
{
    reveal_strlit("\n");
    lemma_one_piece(last, '\n');
    assert(split_on(last, '\n') =~= seq![last]) by {
        assert(last.subrange(0, last.len() as int) =~= last);
    }
    if lines.len() == 0 {
        assert(unlines(lines) + last =~= last);
        assert(seq![last] =~= lines.push(last));
    } else {
        let rest = lines.drop_last();
        let line = lines.last();
        assert(one_line(lines[lines.len() - 1]));
        lemma_split_lines(rest, line);
        let front = unlines(rest) + line;
        assert(unlines(lines) + last =~= front.push('\n') + last);
        lemma_split_concat(front, last);
        assert(rest.push(line) =~= lines);
        assert(lines + seq![last] =~= lines.push(last));
    }
}

pub proof fn lemma_unlines_push(lines: Seq<Seq<char>>, line: Seq<char>)
    ensures
        unlines(lines.push(line)) == unlines(lines) + line + "\n"@,
{
    assert(lines.push(line).drop_last() =~= lines);
}

proof fn lemma_unlines_take(lines: Seq<Seq<char>>, k: int)
    requires
        0 <= k < lines.len(),
    ensures
        unlines(lines.take(k + 1)) == unlines(lines.take(k)) + lines[k] + "\n"@,
{
    assert(lines.take(k + 1) =~= lines.take(k).push(lines[k]));
    lemma_unlines_push(lines.take(k), lines[k]);
}

pub proof fn lemma_filter_all(lines: Seq<Seq<char>>)
    ensures
        (forall|i: int| 0 <= i < lines.len() ==> is_item(#[trigger] lines[i])) ==> lines.filter(
            |line: Seq<char>| is_item(line),
        ) == lines,
        (forall|i: int| 0 <= i < lines.len() ==> !is_item(#[trigger] lines[i])) ==> lines.filter(
            |line: Seq<char>| is_item(line),
        ) == Seq::<Seq<char>>::empty(),
    decreases lines.len(),
{
    reveal(Seq::filter);
    if lines.len() > 0 {
        let rest = lines.drop_last();
        lemma_filter_all(rest);
        assert(lines[lines.len() - 1] == lines.last());
        if forall|i: int| 0 <= i < lines.len() ==> is_item(#[trigger] lines[i]) {
            assert forall|i: int| 0 <= i < rest.len() implies is_item(#[trigger] rest[i]) by {
                assert(is_item(lines[i]));
            }
            assert(rest.push(lines.last()) =~= lines);
        }
        if forall|i: int| 0 <= i < lines.len() ==> !is_item(#[trigger] lines[i]) {
            assert forall|i: int| 0 <= i < rest.len() implies !is_item(#[trigger] rest[i]) by {
                assert(!is_item(lines[i]));
            }
        }
    }
}

pub proof fn lemma_no_break_in_sum(a: Seq<char>, b: Seq<char>)
    requires
        one_line(a),
        one_line(b),
    ensures
        one_line(a + b),
{
    assert forall|i: int| 0 <= i < (a + b).len() implies (a + b)[i] != '\n' by {
        if i < a.len() {
            assert(a.contains(a[i]));
        } else {
            assert(b.contains(b[i - a.len()]));
        }
    }
}

proof fn lemma_script_lines(listing: Seq<ListedFile>)
    requires
        forall|i: int|
            0 <= i < listing.len() && is_script(#[trigger] listing[i]) ==> one_line(
                listing[i].path@,
            ),
    ensures
        script_lines(listing) == unlines(script_items(listing)),
        forall|i: int|
            0 <= i < script_items(listing).len() ==> one_line(#[trigger] script_items(listing)[i])
                && is_item(script_items(listing)[i]),
    decreases listing.len(),
{
    reveal_strlit("- ");
    if listing.len() > 0 {
        let rest = listing.drop_last();
        let last = listing.last();
        assert(listing[listing.len() - 1] == last);
        assert forall|i: int|
            0 <= i < rest.len() && is_script(#[trigger] rest[i]) implies one_line(
            rest[i].path@,
        ) by {
            assert(rest[i] == listing[i]);
        }
        lemma_script_lines(rest);
        if is_script(last) {
            let line = "- "@ + last.path@;
            lemma_unlines_push(script_items(rest), line);
            assert(one_line("- "@));
            lemma_no_break_in_sum("- "@, last.path@);
            assert(line.take(2) =~= "- "@);
            assert(script_lines(rest) + ("- "@ + last.path@ + "\n"@) =~= script_lines(rest) + line
                + "\n"@);
        } else {
            assert(script_lines(rest) + Seq::<char>::empty() =~= script_lines(rest));
        }
    }
}

/// The lines before the scripts: whose they are, where they lie, which server
/// they speak to, and a note on the token.
pub open spec fn head_lines(
    label: Seq<char>,
    hooks_dir: Seq<char>,
    server_url: Seq<char>,
    with_token: bool,
) -> Seq<Seq<char>> {
    let first = "# "@ + label
        + " hook scripts (manual install — wire each to the matching event)"@;
    let second = "# Hook scripts: "@ + hooks_dir;
    let third = "# AI-memory server URL: "@ + server_url;
    if with_token {
        seq![
            first,
            second,
            third,
            "# Auth: set AI_MEMORY_AUTH_TOKEN in each hook's environment to the"@,
            "#       value passed via --auth-token (omitted from this printout)."@,
            Seq::empty(),
        ]
    } else {
        seq![
            first,
            second,
            third,
            "# Auth: server requires no bearer token. To require one, generate a"@,
            "#       token with `ai-memory generate-auth-token` and pass it via"@,
            "#       --auth-token here AND set AI_MEMORY_AUTH_TOKEN on the server."@,
            Seq::empty(),
        ]
    }
}

/// The lines behind the scripts.
pub open spec fn tail_lines() -> Seq<Seq<char>> {
    seq![
        Seq::empty(),
        "Set AI_MEMORY_HOOK_URL in each hook's environment to override the default."@,
    ]
}

proof fn lemma_head_text(
    label: Seq<char>,
    hooks_dir: Seq<char>,
    server_url: Seq<char>,
    with_token: bool,
)
    ensures
        agent_head(label, hooks_dir, server_url, with_token) == unlines(
            head_lines(label, hooks_dir, server_url, with_token),
        ),
{
    let lines = head_lines(label, hooks_dir, server_url, with_token);
    let n = lines.len() as int;
    assert(lines.take(0) =~= Seq::<Seq<char>>::empty());
    lemma_unlines_take(lines, 0);
    lemma_unlines_take(lines, 1);
    lemma_unlines_take(lines, 2);
    lemma_unlines_take(lines, 3);
    lemma_unlines_take(lines, 4);
    lemma_unlines_take(lines, 5);
    if !with_token {
        lemma_unlines_take(lines, 6);
    }
    assert(lines.take(n) =~= lines);
    assert(agent_head(label, hooks_dir, server_url, with_token) =~= unlines(lines));
}

proof fn lemma_fixed_words()
    ensures
        one_line("# "@),
        one_line(" hook scripts (manual install — wire each to the matching event)"@),
        one_line("# Hook scripts: "@),
        one_line("# AI-memory server URL: "@),
        "# "@.len() == 2 && "# "@[0] == '#',
        "# Hook scripts: "@.len() == 16 && "# Hook scripts: "@[0] == '#',
        "# AI-memory server URL: "@.len() == 24 && "# AI-memory server URL: "@[0] == '#',
{
    reveal_strlit("# ");
    reveal_strlit(" hook scripts (manual install — wire each to the matching event)");
    reveal_strlit("# Hook scripts: ");
    reveal_strlit("# AI-memory server URL: ");
}

proof fn lemma_fixed_notes()
    ensures
        ({
            let s = "# Auth: set AI_MEMORY_AUTH_TOKEN in each hook's environment to the"@;
            one_line(s) && s[0] == '#'
        }),
        ({
            let s = "#       value passed via --auth-token (omitted from this printout)."@;
            one_line(s) && s[0] == '#'
        }),
        ({
            let s = "# Auth: server requires no bearer token. To require one, generate a"@;
            one_line(s) && s[0] == '#'
        }),
        ({
            let s = "#       token with `ai-memory generate-auth-token` and pass it via"@;
            one_line(s) && s[0] == '#'
        }),
        ({
            let s = "#       --auth-token here AND set AI_MEMORY_AUTH_TOKEN on the server."@;
            one_line(s) && s[0] == '#'
        }),
        ({
            let s = "Set AI_MEMORY_HOOK_URL in each hook's environment to override the default."@;
            one_line(s) && s[0] == 'S'
        }),
{
    reveal_strlit("# Auth: set AI_MEMORY_AUTH_TOKEN in each hook's environment to the");
    reveal_strlit("#       value passed via --auth-token (omitted from this printout).");
    reveal_strlit("# Auth: server requires no bearer token. To require one, generate a");
    reveal_strlit("#       token with `ai-memory generate-auth-token` and pass it via");
    reveal_strlit("#       --auth-token here AND set AI_MEMORY_AUTH_TOKEN on the server.");
    reveal_strlit("Set AI_MEMORY_HOOK_URL in each hook's environment to override the default.");
}

pub proof fn lemma_plain_line(line: Seq<char>)
    requires
        line.len() == 0 || line[0] != '-',
    ensures
        !is_item(line),
{
    reveal_strlit("- ");
    if is_item(line) {
        assert(line.take(2)[0] == line[0]);
    }
}

proof fn lemma_head_lines(
    label: Seq<char>,
    hooks_dir: Seq<char>,
    server_url: Seq<char>,
    with_token: bool,
)
    requires
        one_line(label),
        one_line(hooks_dir),
        one_line(server_url),
    ensures
        forall|i: int|
            0 <= i < head_lines(label, hooks_dir, server_url, with_token).len() ==> one_line(
                #[trigger] head_lines(label, hooks_dir, server_url, with_token)[i],
            ) && !is_item(head_lines(label, hooks_dir, server_url, with_token)[i]),
        forall|i: int|
            0 <= i < tail_lines().len() ==> one_line(#[trigger] tail_lines()[i]) && !is_item(
                tail_lines()[i],
            ),
{
    lemma_fixed_words();
    lemma_fixed_notes();
    let rest = " hook scripts (manual install — wire each to the matching event)"@;
    lemma_no_break_in_sum("# "@, label);
    lemma_no_break_in_sum("# "@ + label, rest);
    lemma_no_break_in_sum("# Hook scripts: "@, hooks_dir);
    lemma_no_break_in_sum("# AI-memory server URL: "@, server_url);
    let lines = head_lines(label, hooks_dir, server_url, with_token);
    assert forall|i: int| 0 <= i < lines.len() implies one_line(#[trigger] lines[i]) && !is_item(
        lines[i],
    ) by {
        lemma_plain_line(lines[i]);
    }
    assert forall|i: int| 0 <= i < tail_lines().len() implies one_line(#[trigger] tail_lines()[i])
        && !is_item(tail_lines()[i]) by {
        lemma_plain_line(tail_lines()[i]);
    }
}

proof fn lemma_unlines_concat(a: Seq<Seq<char>>, b: Seq<Seq<char>>)
    ensures
        unlines(a + b) == unlines(a) + unlines(b),
    decreases b.len(),
{
    if b.len() == 0 {
        assert(a + b =~= a);
        assert(unlines(a) + unlines(b) =~= unlines(a));
    } else {
        lemma_unlines_concat(a, b.drop_last());
        assert((a + b).drop_last() =~= a + b.drop_last());
        assert((a + b).last() == b.last());
        assert(unlines(a + b) =~= unlines(a) + unlines(b));
    }
}

/// One more entry is listed where it is a script, behind those before it.
pub proof fn law_each_script_is_an_item(listing: Seq<ListedFile>, next: ListedFile)
    ensures
        script_items(Seq::empty()) == Seq::<Seq<char>>::empty(),
        is_script(next) ==> script_items(listing.push(next)) == script_items(listing).push(
            "- "@ + next.path@,
        ),
        !is_script(next) ==> script_items(listing.push(next)) == script_items(listing),
{
    assert(listing.push(next).drop_last() =~= listing);
}

/// What is shown for an agent whose hooks are installed by hand lists exactly
/// its scripts, one on a line and in their order, where no name in it holds a
/// line break.
pub proof fn law_exactly_the_scripts_are_listed(
    label: Seq<char>,
    hooks_dir: Seq<char>,
    server_url: Seq<char>,
    with_token: bool,
    listing: Seq<ListedFile>,
)
    requires
        one_line(label),
        one_line(hooks_dir),
        one_line(server_url),
        forall|i: int|
            0 <= i < listing.len() && is_script(#[trigger] listing[i]) ==> one_line(
                listing[i].path@,
            ),
    ensures
        items(agent_text(label, hooks_dir, server_url, with_token, listing)) == script_items(
            listing,
        ),
        split_on(agent_text(label, hooks_dir, server_url, with_token, listing), '\n')
            == head_lines(label, hooks_dir, server_url, with_token) + script_items(listing)
            + tail_lines().push(Seq::empty()),
{
    let f = |line: Seq<char>| is_item(line);
    let head = head_lines(label, hooks_dir, server_url, with_token);
    let scripts = script_items(listing);
    let tail = tail_lines();
    let text = agent_text(label, hooks_dir, server_url, with_token, listing);
    lemma_head_text(label, hooks_dir, server_url, with_token);
    lemma_head_lines(label, hooks_dir, server_url, with_token);
    lemma_script_lines(listing);
    lemma_unlines_concat(head, scripts);
    lemma_unlines_concat(head + scripts, tail);
    let none = Seq::<Seq<char>>::empty();
    lemma_unlines_push(none, tail[0]);
    lemma_unlines_push(none.push(tail[0]), tail[1]);
    assert(none.push(tail[0]).push(tail[1]) =~= tail);
    let lines = head + scripts + tail;
    let end = Seq::<char>::empty();
    assert(text =~= unlines(lines) + end);
    assert forall|i: int| 0 <= i < lines.len() implies one_line(#[trigger] lines[i]) by {
        if i < head.len() {
            assert(lines[i] == head[i]);
        } else if i < head.len() + scripts.len() {
            assert(lines[i] == scripts[i - head.len()]);
        } else {
            assert(lines[i] == tail[i - head.len() - scripts.len()]);
        }
    }
    lemma_split_lines(lines, end);
    lemma_plain_line(end);
    lemma_filter_all(head);
    lemma_filter_all(scripts);
    let close = tail.push(end);
    assert forall|i: int| 0 <= i < close.len() implies !is_item(#[trigger] close[i]) by {
        if i < tail.len() {
            assert(close[i] == tail[i]);
        }
    }
    lemma_filter_all(close);
    assert(lines.push(end) =~= head + scripts + close);
    Seq::filter_distributes_over_add(head, scripts, f);
    Seq::filter_distributes_over_add(head + scripts, close, f);
    assert(items(text) =~= scripts);
}

} // verus!
