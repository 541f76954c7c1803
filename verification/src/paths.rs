//! Paths as text, with `/` between their components and before those of an
//! absolute path. Where the system writes paths otherwise, the caller puts them
//! in this form first.

use crate::text::{chars_of, ends_in, ends_with, lemma_spans, same_text, spans, spans_of};
use vstd::prelude::*;
use vstd::string::{StrSliceExecFns, StringExecFns};

verus! {

/// The text at a position of `p`.
pub open spec fn at(p: Seq<char>, span: (int, int)) -> Seq<char> {
    p.subrange(span.0, span.1)
}

/// A piece between two slashes names something: it is neither empty nor the
/// directory itself.
pub open spec fn names_something(p: Seq<char>, span: (int, int)) -> bool {
    span.0 < span.1 && !(span.1 == span.0 + 1 && p[span.0] == '.')
}

/// Where the named components of `p` stand.
pub open spec fn named(p: Seq<char>) -> Seq<(int, int)> {
    spans(p, '/').filter(|s: (int, int)| names_something(p, s))
}

/// Where the root of an absolute path stands, or the leading dot of a path
/// that is relative to the current directory.
pub open spec fn anchor(p: Seq<char>) -> Seq<(int, int)> {
    if p.len() > 0 && (p[0] == '/' || (p[0] == '.' && (p.len() == 1 || p[1] == '/'))) {
        seq![(0int, 1int)]
    } else {
        Seq::empty()
    }
}

/// Where the components of `p` stand: its anchor, then those that are named.
pub open spec fn components(p: Seq<char>) -> Seq<(int, int)> {
    anchor(p) + named(p)
}

/// The last component of `p`, unless it leads upwards or there is none.
pub open spec fn file_name(p: Seq<char>) -> Option<Seq<char>> {
    let parts = named(p);
    if parts.len() == 0 || at(p, parts.last()) == ".."@ {
        None
    } else {
        Some(at(p, parts.last()))
    }
}

/// The file name of `p` has the extension `ext`, which holds no dot: something
/// stands before it and its dot.
pub open spec fn extension_is(p: Seq<char>, ext: Seq<char>) -> bool {
    match file_name(p) {
        Some(name) => name.len() > ext.len() + 1 && ends_in(name, "."@ + ext),
        None => false,
    }
}

/// The components of `root` are the first ones of `p`.
pub open spec fn lies_under(root: Seq<char>, p: Seq<char>) -> bool {
    &&& components(root).len() <= components(p).len()
    &&& forall|i: int|
        0 <= i < components(root).len() ==> at(root, #[trigger] components(root)[i]) == at(
            p,
            components(p)[i],
        )
}

/// `p` from its first component that is not one of `root`.
pub open spec fn below(root: Seq<char>, p: Seq<char>) -> Seq<char> {
    let n = components(root).len() as int;
    if n < components(p).len() {
        p.subrange(components(p)[n].0, components(p).last().1)
    } else {
        Seq::empty()
    }
}

/// `base` followed by `sub`; an absolute `sub` stands alone.
pub open spec fn join_text(base: Seq<char>, sub: Seq<char>) -> Seq<char> {
    if sub.len() > 0 && sub[0] == '/' {
        sub
    } else if base.len() == 0 || base.last() == '/' {
        base + sub
    } else {
        base + "/"@ + sub
    }
}

/// `p` without its last component; none where there is nothing above it.
pub open spec fn parent_text(p: Seq<char>) -> Option<Seq<char>> {
    let parts = components(p);
    if parts.len() == 0 || (parts.len() == 1 && p[0] == '/') {
        None
    } else if parts.len() == 1 {
        Some(Seq::empty())
    } else {
        Some(p.take(parts[parts.len() - 2].1))
    }
}

spec fn as_ints(v: Seq<(usize, usize)>) -> Seq<(int, int)> {
    v.map_values(|s: (usize, usize)| (s.0 as int, s.1 as int))
}

pub proof fn lemma_named_within(p: Seq<char>)
    ensures
        forall|i: int|
            0 <= i < named(p).len() ==> 0 <= (#[trigger] named(p)[i]).0 < named(p)[i].1 <= p.len(),
        forall|i: int, j: int|
            0 <= i < j < named(p).len() ==> (#[trigger] named(p)[i]).1 < (#[trigger] named(p)[j]).0,
{
    lemma_spans(p, '/');
    lemma_filter_ordered(spans(p, '/'), p, p.len() as int);
}

proof fn lemma_filter_ordered(all: Seq<(int, int)>, p: Seq<char>, end: int)
    requires
        forall|i: int|
            0 <= i < all.len() ==> 0 <= (#[trigger] all[i]).0 <= all[i].1 <= end,
        forall|i: int, j: int|
            0 <= i < j < all.len() ==> (#[trigger] all[i]).1 < (#[trigger] all[j]).0,
    ensures
        ({
            let kept = all.filter(|s: (int, int)| names_something(p, s));
            &&& forall|i: int|
                0 <= i < kept.len() ==> 0 <= (#[trigger] kept[i]).0 < kept[i].1 <= end
            &&& forall|i: int, j: int|
                0 <= i < j < kept.len() ==> (#[trigger] kept[i]).1 < (#[trigger] kept[j]).0
            &&& all.len() > 0 ==> forall|i: int|
                0 <= i < kept.len() ==> (#[trigger] kept[i]).1 <= all.last().1
        }),
    decreases all.len(),
{
    reveal(Seq::filter);
    if all.len() > 0 {
        let rest = all.drop_last();
        let pred = |s: (int, int)| names_something(p, s);
        let kept = all.filter(pred);
        lemma_filter_ordered(rest, p, end);
        assert(kept == if pred(all.last()) {
            rest.filter(pred).push(all.last())
        } else {
            rest.filter(pred)
        });
        if rest.len() > 0 {
            assert(all[rest.len() - 1].1 < all[all.len() - 1].0);
        }
    }
}

fn named_of(cs: &Vec<char>) -> (r: Vec<(usize, usize)>)
    ensures
        as_ints(r@) == named(cs@),
{
    let all: Vec<(usize, usize)> = spans_of(cs, '/');
    let ghost pred = |s: (int, int)| names_something(cs@, s);
    let ghost model = spans(cs@, '/');
    proof {
        lemma_spans(cs@, '/');
        reveal(Seq::filter);
        assert(model.take(0) =~= Seq::<(int, int)>::empty());
    }
    let mut r: Vec<(usize, usize)> = Vec::new();
    assert(as_ints(r@) =~= model.take(0).filter(pred));
    let mut i: usize = 0;
    while i < all.len()
        invariant
            i <= all.len(),
            all.len() == model.len(),
            model == spans(cs@, '/'),
            pred == |s: (int, int)| names_something(cs@, s),
            forall|j: int|
                0 <= j < all.len() ==> (#[trigger] all@[j]).0 == model[j].0 && all@[j].1
                    == model[j].1,
            forall|j: int|
                0 <= j < model.len() ==> 0 <= (#[trigger] model[j]).0 <= model[j].1 <= cs.len(),
            as_ints(r@) == model.take(i as int).filter(pred),
        decreases all.len() - i,
    {
        let s: (usize, usize) = all[i];
        let ghost before = as_ints(r@);
        proof {
            reveal(Seq::filter);
            assert(model.take(i + 1).drop_last() =~= model.take(i as int));
            assert(model.take(i + 1).last() == model[i as int]);
            assert(model[i as int] == (s.0 as int, s.1 as int));
        }
        if s.0 < s.1 && !(s.1 - s.0 == 1 && cs[s.0] == '.') {
            r.push(s);
            assert(as_ints(r@) =~= before.push((s.0 as int, s.1 as int)));
        }
        i += 1;
    }
    assert(model.take(model.len() as int) =~= model);
    r
}

fn components_of(cs: &Vec<char>) -> (r: Vec<(usize, usize)>)
    ensures
        as_ints(r@) == components(cs@),
{
    let mut r: Vec<(usize, usize)> = Vec::new();
    if cs.len() > 0 && (cs[0] == '/' || (cs[0] == '.' && (cs.len() == 1 || cs[1] == '/'))) {
        r.push((0, 1));
    }
    let ghost start = as_ints(r@);
    assert(start =~= anchor(cs@));
    let mut rest: Vec<(usize, usize)> = named_of(cs);
    let ghost tail = as_ints(rest@);
    let ghost before = r@;
    let ghost after = rest@;
    r.append(&mut rest);
    assert(r@ == before + after);
    assert(as_ints(r@) =~= start + tail);
    r
}

/// The last component of `path`, unless it leads upwards or there is none.
pub fn file_name_of(path: &str) -> (r: Option<String>)
    ensures
        match r {
            Some(name) => file_name(path@) == Some(name@),
            None => file_name(path@) is None,
        },
{
    let cs: Vec<char> = chars_of(path);
    let parts: Vec<(usize, usize)> = named_of(&cs);
    proof {
        lemma_named_within(cs@);
        assert(as_ints(parts@).len() == parts@.len());
    }
    if parts.len() == 0 {
        return None;
    }
    let last: (usize, usize) = parts[parts.len() - 1];
    assert(as_ints(parts@).last() == (last.0 as int, last.1 as int));
    assert(named(cs@).last() == named(cs@)[named(cs@).len() - 1]);
    let name = path.substring_char(last.0, last.1);
    if same_text(name, "..") {
        None
    } else {
        Some(name.to_owned())
    }
}

/// Whether the file name of `path` has the extension `ext`.
pub fn has_extension(path: &str, ext: &str) -> (r: bool)
    ensures
        r == extension_is(path@, ext@),
{
    match file_name_of(path) {
        Some(name) => {
            let mut dotted = ".".to_owned();
            dotted.append(ext);
            let n: usize = name.as_str().unicode_len();
            let m: usize = dotted.as_str().unicode_len();
            proof {
                reveal_strlit(".");
            }
            n > m && ends_with(name.as_str(), dotted.as_str())
        },
        None => false,
    }
}

/// `path` from its first component that is not one of `root`, where it lies
/// under `root`.
pub fn strip_root(root: &str, path: &str) -> (r: Option<String>)
    ensures
        match r {
            Some(rest) => lies_under(root@, path@) && rest@ == below(root@, path@),
            None => !lies_under(root@, path@),
        },
{
    let rs: Vec<char> = chars_of(root);
    let ps: Vec<char> = chars_of(path);
    let rc: Vec<(usize, usize)> = components_of(&rs);
    let pc: Vec<(usize, usize)> = components_of(&ps);
    proof {
        lemma_named_within(rs@);
        lemma_named_within(ps@);
        assert(as_ints(rc@).len() == rc@.len());
        assert(as_ints(pc@).len() == pc@.len());
        assert forall|i: int| 0 <= i < rc@.len() implies 0 <= (#[trigger] rc@[i]).0 <= rc@[i].1
            <= rs.len() && components(root@)[i] == (rc@[i].0 as int, rc@[i].1 as int) by {
            assert(as_ints(rc@)[i] == components(root@)[i]);
            lemma_components_within(rs@, i);
        }
        assert forall|i: int| 0 <= i < pc@.len() implies 0 <= (#[trigger] pc@[i]).0 <= pc@[i].1
            <= ps.len() && components(path@)[i] == (pc@[i].0 as int, pc@[i].1 as int) by {
            assert(as_ints(pc@)[i] == components(path@)[i]);
            lemma_components_within(ps@, i);
        }
    }
    if rc.len() > pc.len() {
        return None;
    }
    let mut i: usize = 0;
    while i < rc.len()
        invariant
            i <= rc.len() <= pc.len(),
            rs@ == root@,
            ps@ == path@,
            rc.len() == components(root@).len(),
            pc.len() == components(path@).len(),
            forall|j: int|
                0 <= j < rc@.len() ==> 0 <= (#[trigger] rc@[j]).0 <= rc@[j].1 <= rs.len()
                    && components(root@)[j] == (rc@[j].0 as int, rc@[j].1 as int),
            forall|j: int|
                0 <= j < pc@.len() ==> 0 <= (#[trigger] pc@[j]).0 <= pc@[j].1 <= ps.len()
                    && components(path@)[j] == (pc@[j].0 as int, pc@[j].1 as int),
            forall|j: int|
                0 <= j < i ==> at(root@, #[trigger] components(root@)[j]) == at(
                    path@,
                    components(path@)[j],
                ),
        decreases rc.len() - i,
    {
        let a: (usize, usize) = rc[i];
        let b: (usize, usize) = pc[i];
        if !same_text(root.substring_char(a.0, a.1), path.substring_char(b.0, b.1)) {
            assert(at(root@, components(root@)[i as int]) != at(path@, components(path@)[i as int]));
            return None;
        }
        i += 1;
    }
    let n: usize = rc.len();
    if n < pc.len() {
        let from: usize = pc[n].0;
        let to: usize = pc[pc.len() - 1].1;
        proof {
            lemma_components_ordered(path@, n as int);
        }
        Some(path.substring_char(from, to).to_owned())
    } else {
        Some(String::new())
    }
}

proof fn lemma_components_within(p: Seq<char>, i: int)
    requires
        0 <= i < components(p).len(),
    ensures
        0 <= components(p)[i].0 <= components(p)[i].1 <= p.len(),
{
    lemma_named_within(p);
    if i < anchor(p).len() {
        assert(components(p)[i] == anchor(p)[i]);
    } else {
        assert(components(p)[i] == named(p)[i - anchor(p).len()]);
    }
}

proof fn lemma_components_ordered(p: Seq<char>, i: int)
    requires
        0 <= i < components(p).len(),
    ensures
        components(p)[i].0 <= components(p).last().1,
{
    lemma_named_within(p);
    lemma_components_within(p, i);
    let last = components(p).len() - 1;
    lemma_components_within(p, last);
    if i < last {
        let k = anchor(p).len() as int;
        assert(components(p)[last] == named(p)[last - k]);
        if i >= k {
            assert(components(p)[i] == named(p)[i - k]);
            assert(named(p)[i - k].1 < named(p)[last - k].0);
        }
    }
}

/// `path` without its last component; none where there is nothing above it.
pub fn parent(path: &str) -> (r: Option<String>)
    ensures
        match r {
            Some(text) => parent_text(path@) == Some(text@),
            None => parent_text(path@) is None,
        },
{
    let cs: Vec<char> = chars_of(path);
    let parts: Vec<(usize, usize)> = components_of(&cs);
    proof {
        assert(as_ints(parts@).len() == parts@.len());
    }
    if parts.len() == 0 {
        return None;
    }
    proof {
        lemma_components_within(path@, 0);
        lemma_components_nonempty(path@);
    }
    if parts.len() == 1 {
        if cs[0] == '/' {
            return None;
        }
        return Some(String::new());
    }
    let end: usize = parts[parts.len() - 2].1;
    proof {
        let k = parts@.len() - 2;
        assert(as_ints(parts@)[k] == components(path@)[k]);
        lemma_components_within(path@, k);
        assert(path@.subrange(0, end as int) =~= path@.take(end as int));
    }
    Some(path.substring_char(0, end).to_owned())
}

proof fn lemma_components_nonempty(p: Seq<char>)
    requires
        components(p).len() > 0,
    ensures
        p.len() > 0,
{
    lemma_named_within(p);
    if anchor(p).len() == 0 {
        assert(components(p)[0] == named(p)[0]);
        assert(named(p)[0].1 <= p.len());
    }
}

/// `base` followed by `sub`; an absolute `sub` stands alone.
pub fn join(base: &str, sub: &str) -> (r: String)
    ensures
        r@ == join_text(base@, sub@),
{
    let n: usize = base.unicode_len();
    if sub.unicode_len() > 0 && sub.get_char(0) == '/' {
        return sub.to_owned();
    }
    let mut r = base.to_owned();
    if n > 0 && base.get_char(n - 1) != '/' {
        r.append("/");
    }
    r.append(sub);
    r
}

/// The spans, `by` characters further on.
pub open spec fn shifted(v: Seq<(int, int)>, by: int) -> Seq<(int, int)> {
    v.map_values(|s: (int, int)| (s.0 + by, s.1 + by))
}

/// The pieces of two texts with a separator between them are those of the
/// first and those of the second.
pub proof fn lemma_spans_concat(a: Seq<char>, b: Seq<char>, sep: char)
    ensures
        spans(a.push(sep) + b, sep) == spans(a, sep) + shifted(
            spans(b, sep),
            a.len() as int + 1,
        ),
    decreases b.len(),
{
    let n = a.len() as int + 1;
    let whole = a.push(sep) + b;
    lemma_spans(b, sep);
    if b.len() == 0 {
        assert(whole =~= a.push(sep));
        assert(a.push(sep).drop_last() =~= a);
        assert(shifted(spans(b, sep), n) =~= seq![(n, n)]);
        assert(spans(whole, sep) =~= spans(a, sep) + shifted(spans(b, sep), n));
    } else {
        let c = b.drop_last();
        lemma_spans_concat(a, c, sep);
        lemma_spans(c, sep);
        assert(whole.drop_last() =~= a.push(sep) + c);
        assert(whole.last() == b.last());
        let before = spans(c, sep);
        if b.last() == sep {
            assert(shifted(spans(b, sep), n) =~= shifted(before, n).push((n + b.len(), n + b.len())));
        } else {
            assert(shifted(spans(b, sep), n) =~= shifted(before, n).drop_last().push(
                (before.last().0 + n, n + b.len()),
            ));
            assert((spans(a, sep) + shifted(before, n)).drop_last() =~= spans(a, sep) + shifted(
                before,
                n,
            ).drop_last());
            assert((spans(a, sep) + shifted(before, n)).last() == (
                before.last().0 + n,
                before.last().1 + n,
            ));
        }
        assert(spans(whole, sep) =~= spans(a, sep) + shifted(spans(b, sep), n));
    }
}

proof fn lemma_filter_shift(
    all: Seq<(int, int)>,
    p: Seq<char>,
    q: Seq<char>,
    by: int,
)
    requires
        forall|i: int| 0 <= i < all.len() ==> 0 <= (#[trigger] all[i]).0 <= all[i].1 <= p.len(),
        0 <= by,
        by + p.len() <= q.len(),
        forall|k: int| 0 <= k < p.len() ==> p[k] == q[by + k],
    ensures
        shifted(all, by).filter(|s: (int, int)| names_something(q, s)) == shifted(
            all.filter(|s: (int, int)| names_something(p, s)),
            by,
        ),
    decreases all.len(),
{
    reveal(Seq::filter);
    let f = |s: (int, int)| names_something(p, s);
    let g = |s: (int, int)| names_something(q, s);
    if all.len() > 0 {
        let rest = all.drop_last();
        lemma_filter_shift(rest, p, q, by);
        assert(shifted(all, by).drop_last() =~= shifted(rest, by));
        let last = all.last();
        assert(shifted(all, by).last() == (last.0 + by, last.1 + by));
        assert(f(last) == g((last.0 + by, last.1 + by)));
        if f(last) {
            assert(shifted(all.filter(f), by) =~= shifted(rest.filter(f), by).push(
                (last.0 + by, last.1 + by),
            ));
        }
    } else {
        assert(shifted(all, by) =~= all);
        assert(shifted(all.filter(f), by) =~= all.filter(f));
    }
}

/// The named components of two paths, one behind the other, are those of the
/// first and those of the second.
pub proof fn lemma_named_concat(a: Seq<char>, b: Seq<char>)
    ensures
        named(a.push('/') + b) == named(a) + shifted(named(b), a.len() as int + 1),
{
    let whole = a.push('/') + b;
    let n = a.len() as int + 1;
    let g = |s: (int, int)| names_something(whole, s);
    lemma_spans_concat(a, b, '/');
    lemma_spans(a, '/');
    lemma_spans(b, '/');
    Seq::filter_distributes_over_add(spans(a, '/'), shifted(spans(b, '/'), n), g);
    lemma_filter_shift(spans(b, '/'), b, whole, n);
    lemma_filter_shift(spans(a, '/'), a, whole, 0);
    assert(shifted(spans(a, '/'), 0) =~= spans(a, '/'));
    assert(shifted(named(a), 0) =~= named(a));
}

/// A text without the separator is one piece.
pub proof fn lemma_one_piece(name: Seq<char>, sep: char)
    requires
        !name.contains(sep),
    ensures
        spans(name, sep) == seq![(0int, name.len() as int)],
    decreases name.len(),
{
    if name.len() > 0 {
        assert(name.contains(name.last()));
        assert forall|i: int| 0 <= i < name.len() - 1 implies name.drop_last()[i] != sep by {
            assert(name.contains(name[i]));
        }
        lemma_one_piece(name.drop_last(), sep);
        assert(spans(name, sep) =~= seq![(0int, name.len() as int)]);
    }
}

/// The file name of a path does not depend on the directories before it,
/// hidden ones among them.
pub proof fn law_directories_do_not_change_the_name(dir: Seq<char>, name: Seq<char>)
    requires
        name.len() > 0,
        !name.contains('/'),
        name != "."@,
        name != ".."@,
    ensures
        file_name(dir.push('/') + name) == Some(name),
        file_name(name) == Some(name),
{
    reveal_strlit(".");
    let whole = dir.push('/') + name;
    lemma_one_piece(name, '/');
    lemma_named_concat(dir, name);
    let f = |s: (int, int)| names_something(name, s);
    let span = (0int, name.len() as int);
    assert(names_something(name, span)) by {
        if name.len() == 1 && name[0] == '.' {
            assert(name =~= "."@);
        }
    }
    assert(named(name) =~= seq![span]) by {
        reveal(Seq::filter);
        assert(seq![span].drop_last() =~= Seq::<(int, int)>::empty());
        assert(seq![span].filter(f) =~= seq![span]);
    }
    let n = dir.len() as int + 1;
    assert(shifted(named(name), n) =~= seq![(n, n + name.len())]);
    assert(named(whole).last() == (n, n + name.len()));
    assert(at(whole, named(whole).last()) =~= name);
    assert(at(name, named(name).last()) =~= name);
}

/// What lies under a directory at a relative path is found there again at that
/// path.
pub proof fn law_stripping_undoes_joining(root: Seq<char>, rel: Seq<char>)
    requires
        rel.len() > 0,
        rel[0] != '/',
        names_something(rel, spans(rel, '/').first()),
        names_something(rel, spans(rel, '/').last()),
    ensures
        lies_under(root, join_text(root, rel)),
        below(root, join_text(root, rel)) == rel,
{
    reveal_strlit("/");
    let whole = join_text(root, rel);
    let n = whole.len() - rel.len();
    let k = components(root).len() as int;
    lemma_joined_components(root, rel);
    assert forall|i: int| 0 <= i < k implies at(root, #[trigger] components(root)[i]) == at(
        whole,
        components(whole)[i],
    ) by {
        lemma_components_within(root, i);
        assert(components(whole)[i] == components(root)[i]);
        assert(at(root, components(root)[i]) =~= at(whole, components(whole)[i]));
    }
    lemma_spans(rel, '/');
    lemma_ends_of_named(rel);
    lemma_first_span(rel, '/');
    assert(components(whole)[k] == shifted(named(rel), n)[0]);
    assert(components(whole)[k].0 == n);
    assert(components(whole).last() == shifted(named(rel), n).last());
    assert(components(whole).last().1 == n + rel.len());
    assert(below(root, whole) =~= rel);
}

pub proof fn lemma_joined_components(root: Seq<char>, rel: Seq<char>)
    requires
        rel.len() > 0,
        rel[0] != '/',
        names_something(rel, spans(rel, '/').first()),
    ensures
        components(join_text(root, rel)) == components(root) + shifted(
            named(rel),
            join_text(root, rel).len() - rel.len(),
        ),
{
    reveal_strlit("/");
    let whole = join_text(root, rel);
    lemma_no_names_in_nothing();
    if root.len() == 0 {
        lemma_spans(rel, '/');
        lemma_first_span(rel, '/');
        assert(anchor(rel) =~= Seq::<(int, int)>::empty());
        assert(whole =~= rel);
        assert(shifted(named(rel), 0) =~= named(rel));
        assert(named(root) =~= Seq::<(int, int)>::empty()) by {
            assert(root =~= Seq::<char>::empty());
        }
    } else if root.last() == '/' {
        let front = root.drop_last();
        assert(whole =~= front.push('/') + rel);
        assert(root =~= front.push('/') + Seq::<char>::empty());
        lemma_named_concat(front, rel);
        lemma_named_concat(front, Seq::empty());
        assert(named(root) =~= named(front));
        assert(anchor(whole) =~= anchor(root));
    } else {
        assert(whole =~= root.push('/') + rel);
        lemma_named_concat(root, rel);
        assert(anchor(whole) =~= anchor(root));
    }
    assert(components(whole) =~= components(root) + shifted(
        named(rel),
        whole.len() - rel.len(),
    ));
}

pub proof fn lemma_no_names_in_nothing()
    ensures
        named(Seq::<char>::empty()) == Seq::<(int, int)>::empty(),
{
    reveal(Seq::filter);
    let nothing = Seq::<char>::empty();
    let f = |s: (int, int)| names_something(nothing, s);
    let all = spans(nothing, '/');
    assert(all =~= seq![(0int, 0int)]);
    assert(all.drop_last() =~= Seq::<(int, int)>::empty());
    assert(all.drop_last().filter(f) =~= Seq::<(int, int)>::empty());
    assert(!f(all.last()));
    assert(all.filter(f) =~= Seq::<(int, int)>::empty());
}

pub proof fn lemma_first_span(s: Seq<char>, sep: char)
    ensures
        spans(s, sep).len() > 0,
        spans(s, sep).first().0 == 0,
    decreases s.len(),
{
    if s.len() > 0 {
        lemma_first_span(s.drop_last(), sep);
    }
}

proof fn lemma_ends_of_named(p: Seq<char>)
    requires
        names_something(p, spans(p, '/').first()),
        names_something(p, spans(p, '/').last()),
    ensures
        named(p).len() > 0,
        named(p).first() == spans(p, '/').first(),
        named(p).last() == spans(p, '/').last(),
{
    lemma_spans(p, '/');
    lemma_ends_of_filter(spans(p, '/'), p);
}

pub proof fn lemma_ends_of_filter(all: Seq<(int, int)>, p: Seq<char>)
    requires
        all.len() > 0,
        names_something(p, all.first()),
    ensures
        ({
            let kept = all.filter(|s: (int, int)| names_something(p, s));
            &&& kept.len() > 0
            &&& kept.first() == all.first()
            &&& names_something(p, all.last()) ==> kept.last() == all.last()
        }),
    decreases all.len(),
{
    reveal(Seq::filter);
    let f = |s: (int, int)| names_something(p, s);
    if all.len() == 1 {
        assert(all.drop_last() =~= Seq::<(int, int)>::empty());
        assert(all.filter(f) =~= all);
    } else {
        let rest = all.drop_last();
        lemma_ends_of_filter(rest, p);
        assert(all.filter(f) == if f(all.last()) {
            rest.filter(f).push(all.last())
        } else {
            rest.filter(f)
        });
    }
}

} // verus!
