//! What holds of paths: which components they have, how they are joined and
//! taken apart, and which of them can be pages.

use crate::page::valid_page;
use crate::paths::{anchor, at, below, components, extension_is, file_name, join_text, lies_under};
use crate::paths::{lemma_joined_components, lemma_named_concat, lemma_named_within};
use crate::paths::{lemma_ends_of_filter, lemma_first_span, lemma_no_names_in_nothing};
use crate::paths::{lemma_one_piece, lemma_spans_concat, named, names_something, parent_text};
use crate::paths::shifted;
use crate::text::{lemma_spans, spans};
use vstd::prelude::*;

verus! {

/// One component: it holds no slash, it is not empty, and it is not the
/// directory itself.
pub open spec fn plain_name(name: Seq<char>) -> bool {
    name.len() > 0 && !name.contains('/') && name != "."@
}

proof fn lemma_one_name(name: Seq<char>)
    requires
        !name.contains('/'),
    ensures
        plain_name(name) ==> named(name) == seq![(0int, name.len() as int)],
        !plain_name(name) ==> named(name) == Seq::<(int, int)>::empty(),
        plain_name(name) <==> names_something(name, (0int, name.len() as int)),
{
    reveal_strlit(".");
    reveal(Seq::filter);
    lemma_one_piece(name, '/');
    let span = (0int, name.len() as int);
    let f = |s: (int, int)| names_something(name, s);
    if name.len() == 1 && name[0] == '.' {
        assert(name =~= "."@);
    }
    assert(seq![span].drop_last() =~= Seq::<(int, int)>::empty());
    assert(seq![span].last() == span);
    assert(seq![span].drop_last().filter(f) =~= Seq::<(int, int)>::empty());
    assert(named(name) == seq![span].filter(f));
    if f(span) {
        assert(named(name) =~= seq![span]);
    } else {
        assert(named(name) =~= Seq::<(int, int)>::empty());
    }
}

/// The components of a path are what stands between its slashes, in order:
/// what is empty there, and a dot, is none.
pub proof fn law_what_the_components_are(dir: Seq<char>, name: Seq<char>)
    requires
        !name.contains('/'),
    ensures
        plain_name(name) ==> named(name) == seq![(0int, name.len() as int)],
        !plain_name(name) ==> named(name) == Seq::<(int, int)>::empty(),
        plain_name(name) ==> named(dir.push('/') + name) == named(dir).push(
            (dir.len() + 1int, dir.len() + 1int + name.len()),
        ),
        !plain_name(name) ==> named(dir.push('/') + name) == named(dir),
{
    lemma_one_name(name);
    lemma_named_concat(dir, name);
    let n = dir.len() as int + 1;
    if plain_name(name) {
        assert(shifted(named(name), n) =~= seq![(n, n + name.len())]);
        assert(named(dir.push('/') + name) =~= named(dir).push((n, n + name.len())));
    } else {
        assert(shifted(named(name), n) =~= Seq::<(int, int)>::empty());
        assert(named(dir.push('/') + name) =~= named(dir));
    }
}

/// Before its named components a path has the root where it is absolute, the
/// current directory where it begins with that, and nothing else.
pub proof fn law_where_a_path_begins(p: Seq<char>)
    ensures
        components(p) == anchor(p) + named(p),
        anchor(p).len() <= 1,
        p.len() == 0 ==> anchor(p).len() == 0,
        p.len() > 0 && p[0] == '/' ==> anchor(p) == seq![(0int, 1int)] && at(
            p,
            components(p)[0],
        ) == seq!['/'],
        p.len() == 1 && p[0] == '.' ==> anchor(p) == seq![(0int, 1int)],
        p.len() > 1 && p[0] == '.' && p[1] == '/' ==> anchor(p) == seq![(0int, 1int)],
        p.len() > 1 && p[0] == '.' && p[1] != '/' ==> anchor(p).len() == 0,
        p.len() > 0 && p[0] != '/' && p[0] != '.' ==> anchor(p).len() == 0,
{
    if p.len() > 0 && p[0] == '/' {
        assert(components(p)[0] == (0int, 1int));
        assert(at(p, components(p)[0]) =~= seq!['/']);
    }
}

/// The file name of a path is its last component: slashes and dots behind it do
/// not count, and one that leads upwards is none.
pub proof fn law_what_the_file_name_is(dir: Seq<char>, name: Seq<char>)
    ensures
        file_name(Seq::empty()) is None,
        file_name(".."@) is None,
        file_name(dir.push('/') + ".."@) is None,
        file_name(dir.push('/') + "."@) == file_name(dir),
        file_name(dir.push('/')) == file_name(dir),
        plain_name(name) && name != ".."@ ==> file_name(name) == Some(name) && file_name(
            dir.push('/') + name,
        ) == Some(name),
{
    reveal_strlit(".");
    reveal_strlit("..");
    let up = dir.push('/') + ".."@;
    let here = dir.push('/') + "."@;
    let open = dir.push('/') + Seq::<char>::empty();
    assert(".."@[0] == '.' && ".."@[1] == '.' && "."@[0] == '.');
    assert(plain_name(".."@));
    law_what_the_components_are(dir, ".."@);
    assert(at(up, named(up).last()) =~= ".."@);
    assert(at(".."@, named(".."@).last()) =~= ".."@);
    law_what_the_components_are(dir, "."@);
    law_what_the_components_are(dir, Seq::empty());
    assert(open =~= dir.push('/'));
    lemma_no_names_in_nothing();
    lemma_named_within(dir);
    if named(dir).len() > 0 {
        let last = named(dir).last();
        assert(named(dir)[named(dir).len() - 1] == last);
        assert(at(here, last) =~= at(dir, last));
        assert(at(open, last) =~= at(dir, last));
    }
    if plain_name(name) && name != ".."@ {
        law_what_the_components_are(dir, name);
        let whole = dir.push('/') + name;
        assert(at(whole, named(whole).last()) =~= name);
        assert(at(name, named(name).last()) =~= name);
    }
}

/// A path has an extension exactly where its file name ends in a dot and the
/// extension, and something stands before them.
pub proof fn law_what_the_extension_is(p: Seq<char>, stem: Seq<char>, ext: Seq<char>)
    ensures
        file_name(p) == Some(stem + "."@ + ext) ==> (extension_is(p, ext) <==> stem.len() > 0),
        file_name(p) is None ==> !extension_is(p, ext),
        extension_is(p, ext) ==> {
            let name = file_name(p)->0;
            name == name.take(name.len() - ext.len() - 1) + "."@ + ext
        },
{
    reveal_strlit(".");
    let whole = stem + "."@ + ext;
    assert("."@.len() == 1);
    assert(whole.len() == stem.len() + 1 + ext.len());
    crate::text_laws::law_beginnings_and_ends(whole, "."@ + ext, stem);
    assert(whole =~= stem + ("."@ + ext));
    if extension_is(p, ext) {
        let name = file_name(p)->0;
        let cut = name.len() - ext.len() - 1;
        crate::text_laws::law_beginnings_and_ends(name, "."@ + ext, stem);
        assert(name =~= name.take(cut) + "."@ + ext);
    }
}

/// Joining puts the one path behind the other, with one slash between them, and
/// changes neither; an absolute path stands alone.
pub proof fn law_joining_paths(base: Seq<char>, sub: Seq<char>)
    ensures
        sub.len() > 0 && sub[0] == '/' ==> join_text(base, sub) == sub,
        !(sub.len() > 0 && sub[0] == '/') ==> {
            let whole = join_text(base, sub);
            &&& whole.len() >= base.len() + sub.len()
            &&& whole.take(base.len() as int) == base
            &&& whole.skip(whole.len() - sub.len()) == sub
            &&& base.len() == 0 ==> whole == sub
            &&& base.len() > 0 ==> whole[whole.len() - sub.len() - 1] == '/'
            &&& whole.len() == base.len() + sub.len() + (if base.len() == 0 || base.last() == '/' {
                0int
            } else {
                1int
            })
        },
{
    reveal_strlit("/");
    assert("/"@.len() == 1 && "/"@[0] == '/');
    let whole = join_text(base, sub);
    if !(sub.len() > 0 && sub[0] == '/') {
        assert(whole.take(base.len() as int) =~= base);
        assert(whole.skip(whole.len() - sub.len()) =~= sub);
        if base.len() == 0 {
            assert(whole =~= sub);
        }
    }
}

/// Joining one path after another is joining them all at once.
pub proof fn law_joining_in_turn(base: Seq<char>, a: Seq<char>, b: Seq<char>)
    requires
        a.len() > 0,
        a[0] != '/',
        b.len() > 0,
    ensures
        join_text(join_text(base, a), b) == join_text(base, join_text(a, b)),
{
    reveal_strlit("/");
    assert("/"@.len() == 1);
    if b[0] != '/' {
        assert(join_text(a, b)[0] == a[0]);
        assert(join_text(base, a).last() == a.last());
        assert(join_text(join_text(base, a), b) =~= join_text(base, join_text(a, b)));
    }
}

/// What is above a name in a directory is that directory; above a name alone
/// there is the empty path, above a name at the root there is the root, and
/// there is nothing above the root or the empty path.
pub proof fn law_what_is_above(dir: Seq<char>, name: Seq<char>)
    requires
        plain_name(name),
    ensures
        dir.len() > 0 && names_something(dir, spans(dir, '/').last()) ==> parent_text(
            dir.push('/') + name,
        ) == Some(dir),
        parent_text(name) == Some(Seq::<char>::empty()),
        parent_text("/"@ + name) == Some("/"@),
        parent_text("/"@) is None,
        parent_text(Seq::empty()) is None,
{
    reveal_strlit("/");
    reveal_strlit(".");
    lemma_no_names_in_nothing();
    lemma_one_name(name);
    let whole = dir.push('/') + name;
    law_what_the_components_are(dir, name);
    if dir.len() > 0 && names_something(dir, spans(dir, '/').last()) {
        lemma_spans(dir, '/');
        lemma_last_named(dir);
        lemma_named_within(dir);
        let last = named(dir).last();
        assert(last.1 == dir.len());
        let parts = components(whole);
        assert(anchor(whole) =~= anchor(dir));
        assert(parts =~= components(dir).push((dir.len() + 1int, dir.len() + 1int + name.len())));
        assert(parts[parts.len() - 2] == last);
        assert(whole.take(dir.len() as int) =~= dir);
    }
    assert(name[0] != '/') by {
        assert(name.contains(name[0]));
    }
    assert(anchor(name) =~= Seq::<(int, int)>::empty()) by {
        if name[0] == '.' {
            if name.len() == 1 {
                assert(name =~= "."@);
            } else {
                assert(name.contains(name[1]));
            }
        }
    }
    assert(components(name) =~= named(name));
    // At the root.
    let rooted = "/"@ + name;
    let none = Seq::<char>::empty();
    assert(rooted =~= none.push('/') + name);
    law_what_the_components_are(none, name);
    assert(anchor(rooted) =~= seq![(0int, 1int)]);
    assert(components(rooted) =~= seq![(0int, 1int), (1int, 1int + name.len())]);
    assert(rooted.take(1) =~= "/"@);
    // The root alone.
    assert("/"@ =~= none.push('/') + none);
    law_what_the_components_are(none, none);
    assert(components("/"@) =~= seq![(0int, 1int)]);
    assert(components(none) =~= Seq::<(int, int)>::empty());
}

proof fn lemma_last_named(p: Seq<char>)
    requires
        names_something(p, spans(p, '/').last()),
    ensures
        named(p).len() > 0,
        named(p).last() == spans(p, '/').last(),
{
    reveal(Seq::filter);
    lemma_first_span(p, '/');
}

/// A path lies under itself and under whatever what it lies under lies under.
pub proof fn law_lying_under(a: Seq<char>, b: Seq<char>, c: Seq<char>)
    ensures
        lies_under(a, a),
        below(a, a) == Seq::<char>::empty(),
        lies_under(a, b) && lies_under(b, c) ==> lies_under(a, c),
        lies_under(a, b) ==> components(a).len() <= components(b).len(),
{
    if lies_under(a, b) && lies_under(b, c) {
        assert forall|i: int| 0 <= i < components(a).len() implies at(
            a,
            #[trigger] components(a)[i],
        ) == at(c, components(c)[i]) by {
            assert(at(b, components(b)[i]) == at(c, components(c)[i]));
        }
    }
}

/// What lies in a directory lies under no other directory beside it, however
/// alike their names are.
pub proof fn law_directories_side_by_side(base: Seq<char>, name: Seq<char>, rel: Seq<char>)
    requires
        plain_name(name),
        rel.len() > 0,
        rel[0] != '/',
        names_something(rel, spans(rel, '/').first()),
        at(rel, spans(rel, '/').first()) != name,
    ensures
        !lies_under(join_text(base, name), join_text(base, rel)),
{
    let root = join_text(base, name);
    let p = join_text(base, rel);
    let k = components(base).len() as int;
    lemma_one_name(name);
    lemma_one_piece(name, '/');
    assert(name[0] != '/') by {
        assert(name.contains(name[0]));
    }
    lemma_joined_components(base, name);
    lemma_joined_components(base, rel);
    law_joining_paths(base, name);
    law_joining_paths(base, rel);
    let n = root.len() - name.len();
    let m = p.len() - rel.len();
    lemma_first_named(rel);
    lemma_spans(rel, '/');
    lemma_first_span(rel, '/');
    let first = spans(rel, '/').first();
    assert(spans(rel, '/')[0] == first);
    assert(components(root)[k] == (n, n + name.len()));
    assert(components(p)[k] == (first.0 + m, first.1 + m)) by {
        assert(shifted(named(rel), m)[0] == (first.0 + m, first.1 + m));
    }
    assert(at(root, components(root)[k]) =~= name) by {
        assert(root.skip(n) == name);
        assert forall|i: int| 0 <= i < name.len() implies root[n + i] == name[i] by {
            assert(root.skip(n)[i] == name[i]);
        }
    }
    assert(at(p, components(p)[k]) =~= at(rel, first)) by {
        assert(p.skip(m) == rel);
        assert forall|i: int| 0 <= i < rel.len() implies p[m + i] == rel[i] by {
            assert(p.skip(m)[i] == rel[i]);
        }
    }
}

proof fn lemma_first_named(p: Seq<char>)
    requires
        names_something(p, spans(p, '/').first()),
    ensures
        named(p).len() > 0,
        named(p).first() == spans(p, '/').first(),
{
    lemma_first_span(p, '/');
    lemma_ends_of_filter(spans(p, '/'), p);
}

/// None of what stands between the slashes leads upwards.
pub open spec fn never_up(s: Seq<char>) -> bool {
    forall|i: int| 0 <= i < spans(s, '/').len() ==> at(s, #[trigger] spans(s, '/')[i]) != ".."@
}

/// Which texts are the paths of pages: those that begin with no slash and none of
/// whose pieces is two dots.
pub proof fn law_what_can_be_a_page(s: Seq<char>, a: Seq<char>, b: Seq<char>, name: Seq<char>)
    ensures
        valid_page(s) <==> s.len() > 0 && s[0] != '/' && never_up(s),
        !name.contains('/') ==> (never_up(name) <==> name != ".."@),
        never_up(a.push('/') + b) <==> never_up(a) && never_up(b),
        !valid_page(Seq::empty()),
        !valid_page(".."@),
        !valid_page(seq!['/'] + a),
        !valid_page(a.push('/') + ".."@),
        !valid_page(".."@.push('/') + b),
        valid_page(a) && valid_page(b) ==> valid_page(a.push('/') + b),
        !name.contains('/') && name.len() > 0 && name != ".."@ ==> valid_page(name),
{
    reveal_strlit("..");
    assert(".."@[0] == '.' && ".."@[1] == '.' && ".."@.len() == 2);
    assert(!".."@.contains('/'));
    lemma_never_up_of_one(".."@);
    if !name.contains('/') {
        lemma_never_up_of_one(name);
        if name.len() > 0 {
            assert(name.contains(name[0]));
        }
    }
    lemma_never_up_of_two(a, b);
    lemma_never_up_of_two(a, ".."@);
    lemma_never_up_of_two(".."@, b);
    assert((seq!['/'] + a)[0] == '/');
    if a.len() > 0 {
        assert((a.push('/') + b)[0] == a[0]);
    }
}

proof fn lemma_never_up_of_one(name: Seq<char>)
    requires
        !name.contains('/'),
    ensures
        never_up(name) <==> name != ".."@,
{
    lemma_one_piece(name, '/');
    assert(spans(name, '/')[0] == (0int, name.len() as int));
    assert(at(name, spans(name, '/')[0]) =~= name);
}

proof fn lemma_never_up_of_two(a: Seq<char>, b: Seq<char>)
    ensures
        never_up(a.push('/') + b) <==> never_up(a) && never_up(b),
{
    let whole = a.push('/') + b;
    let n = a.len() as int + 1;
    let k = spans(a, '/').len() as int;
    lemma_spans_concat(a, b, '/');
    lemma_spans(a, '/');
    lemma_spans(b, '/');
    assert forall|i: int| 0 <= i < k implies at(whole, #[trigger] spans(whole, '/')[i]) == at(
        a,
        spans(a, '/')[i],
    ) by {
        assert(spans(whole, '/')[i] == spans(a, '/')[i]);
        assert(at(whole, spans(whole, '/')[i]) =~= at(a, spans(a, '/')[i]));
    }
    assert forall|j: int| 0 <= j < spans(b, '/').len() implies at(
        whole,
        spans(whole, '/')[k + j],
    ) == at(b, #[trigger] spans(b, '/')[j]) by {
        let s = spans(b, '/')[j];
        assert(spans(whole, '/')[k + j] == (s.0 + n, s.1 + n));
        assert(at(whole, (s.0 + n, s.1 + n)) =~= at(b, s));
    }
    if never_up(whole) {
        assert forall|i: int| 0 <= i < k implies at(a, #[trigger] spans(a, '/')[i]) != ".."@ by {
            assert(at(whole, spans(whole, '/')[i]) != ".."@);
        }
        assert forall|j: int| 0 <= j < spans(b, '/').len() implies at(
            b,
            #[trigger] spans(b, '/')[j],
        ) != ".."@ by {
            assert(at(whole, spans(whole, '/')[k + j]) != ".."@);
        }
    }
    if never_up(a) && never_up(b) {
        assert forall|i: int| 0 <= i < spans(whole, '/').len() implies at(
            whole,
            #[trigger] spans(whole, '/')[i],
        ) != ".."@ by {
            if i < k {
                assert(at(a, spans(a, '/')[i]) != ".."@);
            } else {
                let j = i - k;
                assert(at(b, spans(b, '/')[j]) != ".."@);
                assert(spans(whole, '/')[k + j] == spans(whole, '/')[i]);
            }
        }
    }
}

} // verus!
