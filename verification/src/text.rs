//! Text as sequences of characters: white space, trimming, splitting, joining
//! and decimal numbers.

use vstd::prelude::*;
use vstd::string::{StrSliceExecFns, StringExecFns};

verus! {

/// Whether `c` has the Unicode property `White_Space`.
pub open spec fn white(c: char) -> bool {
    let n = c as u32;
    ||| 0x9 <= n <= 0xd
    ||| n == 0x20
    ||| n == 0x85
    ||| n == 0xa0
    ||| n == 0x1680
    ||| 0x2000 <= n <= 0x200a
    ||| n == 0x2028
    ||| n == 0x2029
    ||| n == 0x202f
    ||| n == 0x205f
    ||| n == 0x3000
}

/// `s` without the white space at its two ends.
pub open spec fn trimmed(s: Seq<char>) -> Seq<char>
    decreases s.len(),
{
    if s.len() == 0 {
        s
    } else if white(s.first()) {
        trimmed(s.drop_first())
    } else if white(s.last()) {
        trimmed(s.drop_last())
    } else {
        s
    }
}

/// Where the pieces of `s` between the occurrences of `sep` begin and end, in
/// order: always one more than `sep` occurs.
pub open spec fn spans(s: Seq<char>, sep: char) -> Seq<(int, int)>
    decreases s.len(),
{
    let n = s.len() as int;
    if n == 0 {
        seq![(0int, 0int)]
    } else {
        let before = spans(s.drop_last(), sep);
        if s.last() == sep {
            before.push((n, n))
        } else {
            before.drop_last().push((before.last().0, n))
        }
    }
}

/// The pieces of `s` between the occurrences of `sep`, in order.
pub open spec fn split_on(s: Seq<char>, sep: char) -> Seq<Seq<char>> {
    spans(s, sep).map_values(|p: (int, int)| s.subrange(p.0, p.1))
}

/// The texts of a list.
pub open spec fn texts(v: Seq<String>) -> Seq<Seq<char>> {
    v.map_values(|s: String| s@)
}

/// The parts one after the other, `sep` between each two.
pub open spec fn joined(parts: Seq<Seq<char>>, sep: Seq<char>) -> Seq<char>
    decreases parts.len(),
{
    if parts.len() == 0 {
        Seq::empty()
    } else {
        let head = joined(parts.drop_last(), sep);
        (if parts.len() == 1 {
            head
        } else {
            head + sep
        }) + parts.last()
    }
}

/// The first `n` characters of `s`, or all of it where it is shorter.
pub open spec fn at_most(s: Seq<char>, n: nat) -> Seq<char> {
    if s.len() <= n {
        s
    } else {
        s.take(n as int)
    }
}

/// The digit for `d`, which is below ten.
pub open spec fn digit(d: nat) -> char {
    (48 + d) as char
}

/// `n` in decimal, without leading zeros.
pub open spec fn decimal(n: nat) -> Seq<char>
    decreases n,
{
    if n < 10 {
        seq![digit(n)]
    } else {
        decimal(n / 10).push(digit(n % 10))
    }
}

/// Whether `s` begins with `prefix`.
pub open spec fn begins_with(s: Seq<char>, prefix: Seq<char>) -> bool {
    prefix.len() <= s.len() && s.take(prefix.len() as int) == prefix
}

/// Whether `s` ends with `suffix`.
pub open spec fn ends_in(s: Seq<char>, suffix: Seq<char>) -> bool {
    suffix.len() <= s.len() && s.skip(s.len() - suffix.len()) == suffix
}

/// `c` has the property `White_Space`.
pub fn is_white(c: char) -> (r: bool)
    ensures
        r == white(c),
{
    let n: u32 = c as u32;
    (0x9 <= n && n <= 0xd) || n == 0x20 || n == 0x85 || n == 0xa0 || n == 0x1680 || (0x2000 <= n
        && n <= 0x200a) || n == 0x2028 || n == 0x2029 || n == 0x202f || n == 0x205f || n == 0x3000
}

/// The characters of `s`.
pub fn chars_of(s: &str) -> (r: Vec<char>)
    ensures
        r@ == s@,
{
    let mut r: Vec<char> = Vec::new();
    for c in it: s.chars()
        invariant
            it.seq() == s@,
            r@ == it.seq().take(it.index() as int),
    {
        r.push(c);
    }
    r
}

/// Whether two texts are the same.
pub fn same_text(a: &str, b: &str) -> (r: bool)
    ensures
        r == (a@ == b@),
{
    let x: Vec<char> = chars_of(a);
    let y: Vec<char> = chars_of(b);
    if x.len() != y.len() {
        return false;
    }
    let mut i: usize = 0;
    while i < x.len()
        invariant
            i <= x.len(),
            x.len() == y.len(),
            x@ == a@,
            y@ == b@,
            forall|j: int| 0 <= j < i ==> x@[j] == y@[j],
        decreases x.len() - i,
    {
        if x[i] != y[i] {
            return false;
        }
        i += 1;
    }
    assert(x@ =~= y@);
    true
}

/// Appends `n` in decimal.
pub fn push_decimal(out: &mut String, n: usize)
    ensures
        final(out)@ == old(out)@ + decimal(n as nat),
    decreases n,
{
    if n >= 10 {
        push_decimal(out, n / 10);
    }
    let d: usize = n % 10;
    proof {
        reveal_strlit("0");
        reveal_strlit("1");
        reveal_strlit("2");
        reveal_strlit("3");
        reveal_strlit("4");
        reveal_strlit("5");
        reveal_strlit("6");
        reveal_strlit("7");
        reveal_strlit("8");
        reveal_strlit("9");
    }
    let ghost before = out@;
    if d == 0 {
        out.append("0");
    } else if d == 1 {
        out.append("1");
    } else if d == 2 {
        out.append("2");
    } else if d == 3 {
        out.append("3");
    } else if d == 4 {
        out.append("4");
    } else if d == 5 {
        out.append("5");
    } else if d == 6 {
        out.append("6");
    } else if d == 7 {
        out.append("7");
    } else if d == 8 {
        out.append("8");
    } else {
        out.append("9");
    }
    assert(out@ =~= before.push(digit(d as nat)));
    assert(out@ =~= old(out)@ + decimal(n as nat));
}

/// The pieces of a text lie in it, one behind the other; none holds the
/// separator, and the last one reaches to the end.
pub proof fn lemma_spans(s: Seq<char>, sep: char)
    ensures
        spans(s, sep).len() > 0,
        spans(s, sep).last().1 == s.len(),
        forall|i: int|
            0 <= i < spans(s, sep).len() ==> 0 <= (#[trigger] spans(s, sep)[i]).0 <= spans(
                s,
                sep,
            )[i].1 <= s.len(),
        forall|i: int, j: int|
            0 <= i < j < spans(s, sep).len() ==> (#[trigger] spans(s, sep)[i]).1 < (
            #[trigger] spans(s, sep)[j]).0,
        forall|i: int, k: int|
            0 <= i < spans(s, sep).len() && (#[trigger] spans(s, sep)[i]).0 <= k < spans(
                s,
                sep,
            )[i].1 ==> #[trigger] s[k] != sep,
    decreases s.len(),
{
    if s.len() > 0 {
        let t = s.drop_last();
        lemma_spans(t, sep);
        assert forall|i: int, k: int|
            0 <= i < spans(s, sep).len() && (#[trigger] spans(s, sep)[i]).0 <= k < spans(
                s,
                sep,
            )[i].1 implies #[trigger] s[k] != sep by {
            if k < t.len() {
                assert(t[k] == s[k]);
                if i < spans(t, sep).len() {
                    assert(spans(t, sep)[i].0 == spans(s, sep)[i].0);
                }
            }
        }
    }
}

/// Where the pieces of `cs` between the occurrences of `sep` begin and end.
pub fn spans_of(cs: &Vec<char>, sep: char) -> (r: Vec<(usize, usize)>)
    ensures
        r.len() == spans(cs@, sep).len(),
        forall|i: int|
            0 <= i < r.len() ==> (#[trigger] r@[i]).0 == spans(cs@, sep)[i].0 && r@[i].1 == spans(
                cs@,
                sep,
            )[i].1,
{
    let mut r: Vec<(usize, usize)> = Vec::new();
    let mut start: usize = 0;
    let mut i: usize = 0;
    assert(cs@.take(0) =~= Seq::<char>::empty());
    while i < cs.len()
        invariant
            i <= cs.len(),
            r.len() + 1 == spans(cs@.take(i as int), sep).len(),
            start == spans(cs@.take(i as int), sep).last().0,
            spans(cs@.take(i as int), sep).last().1 == i,
            forall|j: int|
                0 <= j < r.len() ==> (#[trigger] r@[j]).0 == spans(cs@.take(i as int), sep)[j].0
                    && r@[j].1 == spans(cs@.take(i as int), sep)[j].1,
        decreases cs.len() - i,
    {
        let ghost before = spans(cs@.take(i as int), sep);
        assert(cs@.take(i + 1).drop_last() =~= cs@.take(i as int));
        if cs[i] == sep {
            r.push((start, i));
            start = i + 1;
        }
        i += 1;
    }
    assert(cs@.take(cs.len() as int) =~= cs@);
    r.push((start, cs.len()));
    r
}

proof fn lemma_trim_left(s: Seq<char>, from: int, to: int)
    requires
        0 <= from < to <= s.len(),
        white(s[from]),
    ensures
        trimmed(s.subrange(from, to)) == trimmed(s.subrange(from + 1, to)),
{
    assert(s.subrange(from, to).drop_first() =~= s.subrange(from + 1, to));
}

proof fn lemma_trim_right(s: Seq<char>, from: int, to: int)
    requires
        0 <= from < to <= s.len(),
        !white(s[from]),
        white(s[to - 1]),
    ensures
        trimmed(s.subrange(from, to)) == trimmed(s.subrange(from, to - 1)),
{
    assert(s.subrange(from, to).drop_last() =~= s.subrange(from, to - 1));
}

/// Where `cs[from..to]` begins and ends once trimmed.
pub fn trim_bounds(cs: &Vec<char>, from: usize, to: usize) -> (r: (usize, usize))
    requires
        from <= to <= cs.len(),
    ensures
        from <= r.0 <= r.1 <= to,
        cs@.subrange(r.0 as int, r.1 as int) == trimmed(cs@.subrange(from as int, to as int)),
{
    let mut a: usize = from;
    let mut b: usize = to;
    while a < b && is_white(cs[a])
        invariant
            from <= a <= b,
            b == to,
            to <= cs.len(),
            trimmed(cs@.subrange(a as int, b as int)) == trimmed(
                cs@.subrange(from as int, to as int),
            ),
        decreases b - a,
    {
        proof {
            lemma_trim_left(cs@, a as int, b as int);
        }
        a += 1;
    }
    while a < b && is_white(cs[b - 1])
        invariant
            from <= a <= b <= to,
            to <= cs.len(),
            a < b ==> !white(cs@[a as int]),
            trimmed(cs@.subrange(a as int, b as int)) == trimmed(
                cs@.subrange(from as int, to as int),
            ),
        decreases b - a,
    {
        proof {
            lemma_trim_right(cs@, a as int, b as int);
        }
        b -= 1;
    }
    (a, b)
}

/// Whether `s` is empty once trimmed.
pub fn is_blank(s: &str) -> (r: bool)
    ensures
        r == (trimmed(s@).len() == 0),
{
    let cs: Vec<char> = chars_of(s);
    let (a, b): (usize, usize) = trim_bounds(&cs, 0, cs.len());
    assert(cs@.subrange(0, cs.len() as int) =~= s@);
    a == b
}

/// The first `n` characters of `s`, or all of it where it is shorter.
pub fn prefix_of(s: &str, n: usize) -> (r: String)
    ensures
        r@ == at_most(s@, n as nat),
{
    let len: usize = s.unicode_len();
    if len <= n {
        s.to_owned()
    } else {
        let r = s.substring_char(0, n);
        assert(s@.subrange(0, n as int) =~= s@.take(n as int));
        r.to_owned()
    }
}

/// Whether `s` begins with `prefix`.
pub fn starts_with(s: &str, prefix: &str) -> (r: bool)
    ensures
        r == begins_with(s@, prefix@),
{
    let n: usize = prefix.unicode_len();
    if s.unicode_len() < n {
        return false;
    }
    let head = s.substring_char(0, n);
    assert(s@.subrange(0, n as int) =~= s@.take(n as int));
    same_text(head, prefix)
}

/// Whether `s` ends with `suffix`.
pub fn ends_with(s: &str, suffix: &str) -> (r: bool)
    ensures
        r == ends_in(s@, suffix@),
{
    let n: usize = suffix.unicode_len();
    let len: usize = s.unicode_len();
    if len < n {
        return false;
    }
    let tail = s.substring_char(len - n, len);
    assert(s@.subrange(len - n, len as int) =~= s@.skip(len - n));
    same_text(tail, suffix)
}

/// `s` without the `c`s at its end.
pub open spec fn without_trailing(s: Seq<char>, c: char) -> Seq<char>
    decreases s.len(),
{
    if s.len() > 0 && s.last() == c {
        without_trailing(s.drop_last(), c)
    } else {
        s
    }
}

/// `s` without the `c`s at its end.
pub fn trim_trailing(s: &str, c: char) -> (r: String)
    ensures
        r@ == without_trailing(s@, c),
{
    let cs: Vec<char> = chars_of(s);
    let mut n: usize = cs.len();
    assert(cs@.take(n as int) =~= s@);
    while n > 0 && cs[n - 1] == c
        invariant
            n <= cs.len(),
            cs@ == s@,
            without_trailing(cs@.take(n as int), c) == without_trailing(s@, c),
        decreases n,
    {
        assert(cs@.take(n as int).drop_last() =~= cs@.take(n - 1));
        n -= 1;
    }
    let r = s.substring_char(0, n);
    assert(s@.subrange(0, n as int) =~= s@.take(n as int));
    r.to_owned()
}

} // verus!
