//! What holds of the operations on text, for every text.

use crate::install_hooks_laws::lemma_split_concat;
use crate::paths::lemma_one_piece;
use crate::text::{at_most, begins_with, decimal, digit, ends_in, joined, lemma_spans, spans};
use crate::text::{split_on, texts, trimmed, white, without_trailing};
use vstd::prelude::*;

verus! {

/// The number that decimal digits stand for.
pub open spec fn number(s: Seq<char>) -> int
    decreases s.len(),
{
    if s.len() == 0 {
        0
    } else {
        number(s.drop_last()) * 10 + (s.last() as int - '0' as int)
    }
}

/// A number written in decimal reads as that number: it is made of digits
/// alone, and only zero begins with a zero.
pub proof fn law_decimal_reads_back(n: nat)
    ensures
        number(decimal(n)) == n,
        decimal(n).len() > 0,
        forall|i: int| 0 <= i < decimal(n).len() ==> '0' <= #[trigger] decimal(n)[i] <= '9',
        decimal(n)[0] == '0' ==> n == 0 && decimal(n).len() == 1,
    decreases n,
{
    reveal_with_fuel(number, 2);
    if n < 10 {
        assert(decimal(n) =~= seq![digit(n)]);
        assert(decimal(n).drop_last() =~= Seq::<char>::empty());
        assert(decimal(n).last() == digit(n));
    } else {
        law_decimal_reads_back(n / 10);
        assert(decimal(n).drop_last() =~= decimal(n / 10));
        assert(decimal(n)[0] == decimal(n / 10)[0]);
    }
}

/// A text cut at `n` characters is the beginning of the text, as long as it can
/// be.
pub proof fn law_cutting(s: Seq<char>, n: nat)
    ensures
        at_most(s, n).len() == if s.len() < n {
            s.len()
        } else {
            n
        },
        forall|i: int| 0 <= i < at_most(s, n).len() ==> #[trigger] at_most(s, n)[i] == s[i],
{
}

/// Joining no parts gives nothing, joining one gives that part, and one more
/// part comes behind the separator.
pub proof fn law_joining(parts: Seq<Seq<char>>, part: Seq<char>, sep: Seq<char>)
    ensures
        joined(Seq::empty(), sep) == Seq::<char>::empty(),
        joined(seq![part], sep) == part,
        parts.len() > 0 ==> joined(parts.push(part), sep) == joined(parts, sep) + sep + part,
{
    assert(seq![part].drop_last() =~= Seq::<Seq<char>>::empty());
    assert(seq![part].last() == part);
    reveal_with_fuel(joined, 2);
    assert(joined(seq![part], sep) =~= part);
    assert(parts.push(part).drop_last() =~= parts);
}

/// The pieces of a text cover it: the first begins where it begins, the last
/// ends where it ends, between two of them stands one separator, and none
/// stands within.
pub proof fn law_pieces_cover_the_text(s: Seq<char>, sep: char)
    ensures
        spans(s, sep).len() > 0,
        spans(s, sep)[0].0 == 0,
        spans(s, sep).last().1 == s.len(),
        forall|i: int|
            0 <= i < spans(s, sep).len() - 1 ==> {
                &&& spans(s, sep)[i + 1].0 == (#[trigger] spans(s, sep)[i]).1 + 1
                &&& s[spans(s, sep)[i].1] == sep
            },
        forall|i: int, k: int|
            0 <= i < spans(s, sep).len() && (#[trigger] spans(s, sep)[i]).0 <= k < spans(
                s,
                sep,
            )[i].1 ==> #[trigger] s[k] != sep,
        split_on(s, sep).len() == spans(s, sep).len(),
        forall|i: int|
            0 <= i < spans(s, sep).len() ==> #[trigger] split_on(s, sep)[i] == s.subrange(
                spans(s, sep)[i].0,
                spans(s, sep)[i].1,
            ),
    decreases s.len(),
{
    lemma_spans(s, sep);
    if s.len() > 0 {
        let t = s.drop_last();
        law_pieces_cover_the_text(t, sep);
        lemma_spans(t, sep);
        let before = spans(t, sep);
        let now = spans(s, sep);
        assert forall|i: int| 0 <= i < now.len() - 1 implies now[i + 1].0 == (
        #[trigger] now[i]).1 + 1 && s[now[i].1] == sep by {
            if s.last() == sep {
                assert(now[i] == before[i]);
                if i < before.len() - 1 {
                    assert(now[i + 1] == before[i + 1]);
                    assert(t[before[i].1] == sep);
                } else {
                    assert(before[i] == before.last());
                }
            } else {
                assert(now[i] == before[i]);
                assert(t[before[i].1] == sep);
                assert(now[i + 1].0 == before[i + 1].0);
            }
        }
    }
}

/// A text without the separator is its own one piece, and the pieces of two
/// texts with a separator between them are those of the first and those of the
/// second.
pub proof fn law_splitting(a: Seq<char>, b: Seq<char>)
    ensures
        !a.contains('\n') ==> split_on(a, '\n') == seq![a],
        split_on(a.push('\n') + b, '\n') == split_on(a, '\n') + split_on(b, '\n'),
{
    if !a.contains('\n') {
        lemma_one_piece(a, '\n');
        assert(a.subrange(0, a.len() as int) =~= a);
        assert(split_on(a, '\n') =~= seq![a]);
    }
    lemma_split_concat(a, b);
}

/// `trimmed(s)` stands in `s` from `a` to `b`, with nothing but white space
/// before and behind it.
pub open spec fn trims_to(s: Seq<char>, a: int, b: int) -> bool {
    &&& 0 <= a <= b <= s.len()
    &&& trimmed(s) == s.subrange(a, b)
    &&& forall|i: int| 0 <= i < a ==> white(#[trigger] s[i])
    &&& forall|i: int| b <= i < s.len() ==> white(#[trigger] s[i])
}

proof fn lemma_trim_ends(s: Seq<char>) -> (ends: (int, int))
    ensures
        trims_to(s, ends.0, ends.1),
        trimmed(s).len() > 0 ==> !white(trimmed(s)[0]) && !white(trimmed(s).last()),
    decreases s.len(),
{
    if s.len() == 0 {
        assert(s.subrange(0, 0) =~= s);
        (0, 0)
    } else if white(s.first()) {
        let t = s.drop_first();
        let e = lemma_trim_ends(t);
        assert(t.subrange(e.0, e.1) =~= s.subrange(e.0 + 1, e.1 + 1));
        assert forall|i: int| 0 <= i < e.0 + 1 implies white(#[trigger] s[i]) by {
            if i > 0 {
                assert(white(t[i - 1]));
            }
        }
        assert forall|i: int| e.1 + 1 <= i < s.len() implies white(#[trigger] s[i]) by {
            assert(white(t[i - 1]));
        }
        (e.0 + 1, e.1 + 1)
    } else if white(s.last()) {
        let t = s.drop_last();
        let e = lemma_trim_ends(t);
        assert(t.subrange(e.0, e.1) =~= s.subrange(e.0, e.1));
        assert forall|i: int| 0 <= i < e.0 implies white(#[trigger] s[i]) by {
            assert(white(t[i]));
        }
        assert forall|i: int| e.1 <= i < s.len() implies white(#[trigger] s[i]) by {
            if i < t.len() {
                assert(white(t[i]));
            }
        }
        e
    } else {
        assert(s.subrange(0, s.len() as int) =~= s);
        (0, s.len() as int)
    }
}

/// What is trimmed off the ends of a text is white space, and what is left
/// neither begins nor ends with any.
pub proof fn law_trimming(s: Seq<char>)
    ensures
        exists|a: int, b: int| trims_to(s, a, b),
        trimmed(s).len() > 0 ==> !white(trimmed(s)[0]) && !white(trimmed(s).last()),
        trimmed(s).len() == 0 <==> forall|i: int| 0 <= i < s.len() ==> white(#[trigger] s[i]),
{
    let e = lemma_trim_ends(s);
    assert(trims_to(s, e.0, e.1));
    if trimmed(s).len() > 0 {
        assert(trimmed(s)[0] == s[e.0]);
    }
}

/// White space is what Unicode says it is.
pub proof fn law_white_space(c: char)
    ensures
        white(c) <==> c == '\u{9}' || c == '\u{a}' || c == '\u{b}' || c == '\u{c}' || c == '\u{d}'
            || c == '\u{20}' || c == '\u{85}' || c == '\u{a0}' || c == '\u{1680}' || ('\u{2000}'
            <= c <= '\u{200a}') || c == '\u{2028}' || c == '\u{2029}' || c == '\u{202f}' || c
            == '\u{205f}' || c == '\u{3000}',
{
}

/// A text begins with another exactly if that and some rest make it up, and it
/// ends in one likewise.
pub proof fn law_beginnings_and_ends(s: Seq<char>, part: Seq<char>, rest: Seq<char>)
    ensures
        begins_with(part + rest, part),
        begins_with(s, part) ==> s == part + s.skip(part.len() as int),
        ends_in(rest + part, part),
        ends_in(s, part) ==> s == s.take(s.len() - part.len()) + part,
{
    assert((part + rest).take(part.len() as int) =~= part);
    assert((rest + part).skip(rest.len() as int) =~= part);
    if begins_with(s, part) {
        assert(s =~= s.take(part.len() as int) + s.skip(part.len() as int));
    }
    if ends_in(s, part) {
        assert(s =~= s.take(s.len() - part.len()) + s.skip(s.len() - part.len()));
    }
}

/// What is cut off the end of a text is the one character, repeated, and all of
/// it.
pub proof fn law_trailing(s: Seq<char>, c: char)
    ensures
        without_trailing(s, c).len() <= s.len(),
        without_trailing(s, c) == s.take(without_trailing(s, c).len() as int),
        forall|i: int| without_trailing(s, c).len() <= i < s.len() ==> #[trigger] s[i] == c,
        without_trailing(s, c).len() > 0 ==> without_trailing(s, c).last() != c,
        without_trailing(s.push(c), c) == without_trailing(s, c),
    decreases s.len(),
{
    assert(s.push(c).drop_last() =~= s);
    if s.len() > 0 && s.last() == c {
        let t = s.drop_last();
        law_trailing(t, c);
        assert(t.take(without_trailing(t, c).len() as int) =~= s.take(
            without_trailing(t, c).len() as int,
        ));
        assert forall|i: int| without_trailing(s, c).len() <= i < s.len() implies #[trigger] s[i]
            == c by {
            if i < t.len() {
                assert(t[i] == c);
            }
        }
    } else {
        assert(s.take(s.len() as int) =~= s);
    }
}

/// A list of texts holds the text of each, in order.
pub proof fn law_texts(v: Seq<String>)
    ensures
        texts(v).len() == v.len(),
        forall|i: int| 0 <= i < v.len() ==> #[trigger] texts(v)[i] == v[i]@,
{
}

} // verus!
