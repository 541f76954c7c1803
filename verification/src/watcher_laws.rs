//! What holds of the watcher over whole trees and many events.

use crate::page::valid_page;
use crate::paths::{below, join_text, law_directories_do_not_change_the_name};
use crate::paths::{law_stripping_undoes_joining, lies_under, names_something};
use crate::paths_laws::{law_what_the_extension_is, law_what_the_file_name_is, plain_name};
use crate::text::{begins_with, spans};
use crate::text_laws::law_beginnings_and_ends;
use crate::watcher::{action_for, brings_content, candidates, leads_to_file, markdown, page_at};
use crate::watcher::{page_below, slashed, tempfile, DEBOUNCE_WINDOW, RECONCILE_INTERVAL};
use crate::watcher::{ChangeKind, EventQueue, Found, FoundKind, LoopAction, WalkState};
use vstd::prelude::*;

verus! {

/// Whether a file is taken for a page is a matter of its name: no directory is
/// left out, hidden ones no more than others.
pub proof fn law_hidden_directories_are_not_skipped(dir: Seq<char>, name: Seq<char>)
    requires
        name.len() > 0,
        !name.contains('/'),
        name != "."@,
        name != ".."@,
    ensures
        markdown(dir.push('/') + name) == markdown(name),
        tempfile(dir.push('/') + name) == tempfile(name),
{
    law_directories_do_not_change_the_name(dir, name);
}

/// A file on its way to replacing a page is never taken for a page itself.
pub proof fn law_own_tempfiles_are_ignored(root: Seq<char>, path: Seq<char>)
    requires
        tempfile(path),
    ensures
        page_at(root, path) is None,
{
}

/// Whatever is read again is a page below the root of the wiki.
pub proof fn law_pages_stay_in_the_wiki(root: Seq<char>, path: Seq<char>)
    ensures
        page_at(root, path) matches Some(page) ==> valid_page(page) && markdown(path),
{
}

/// The file of a page, below the root of the wiki, is that page.
pub proof fn law_the_file_of_a_page_is_that_page(root: Seq<char>, page: Seq<char>)
    requires
        valid_page(page),
        !page.contains('\\'),
        names_something(page, spans(page, '/').first()),
        names_something(page, spans(page, '/').last()),
    ensures
        page_below(root, join_text(root, page)) == Some(page),
{
    law_stripping_undoes_joining(root, page);
    assert(slashed(page) =~= page) by {
        assert forall|i: int| 0 <= i < page.len() implies page[i] != '\\' by {
            assert(page.contains(page[i]));
        }
    }
}

/// The pages to read again for the paths of an event are exactly those that
/// its paths are the files of.
pub proof fn law_every_changed_page_is_read(root: Seq<char>, paths: Seq<String>)
    ensures
        forall|i: int|
            0 <= i < paths.len() ==> match page_at(root, (#[trigger] paths[i])@) {
                Some(page) => candidates(root, paths).contains((i, page)),
                None => true,
            },
        forall|c: (int, Seq<char>)| #[trigger]
            candidates(root, paths).contains(c) ==> 0 <= c.0 < paths.len() && page_at(
                root,
                paths[c.0]@,
            ) == Some(c.1),
    decreases paths.len(),
{
    if paths.len() > 0 {
        let rest = paths.drop_last();
        law_every_changed_page_is_read(root, rest);
        let before = candidates(root, rest);
        let after = candidates(root, paths);
        let n = paths.len() - 1;
        assert forall|i: int| 0 <= i < paths.len() implies match page_at(
            root,
            (#[trigger] paths[i])@,
        ) {
            Some(page) => after.contains((i, page)),
            None => true,
        } by {
            if let Some(page) = page_at(root, paths[i]@) {
                if i < n {
                    assert(rest[i] == paths[i]);
                    assert(before.contains((i, page)));
                    let k = before.index_of((i, page));
                    assert(after[k] == (i, page));
                } else {
                    assert(after.last() == (n, page));
                }
            }
        }
        assert forall|c: (int, Seq<char>)| #[trigger] after.contains(c) implies 0 <= c.0
            < paths.len() && page_at(root, paths[c.0]@) == Some(c.1) by {
            let k = after.index_of(c);
            if k < before.len() {
                assert(before[k] == c);
                assert(before.contains(c));
                assert(rest[c.0] == paths[c.0]);
            }
        }
    }
}

/// What may be waiting once the watcher has been told to stop: no event comes
/// to those that are there.
pub open spec fn closing(waiting: nat) -> EventQueue {
    if waiting > 0 {
        EventQueue::Event
    } else {
        EventQueue::Closed
    }
}

/// What the watcher does from the request to stop on, with this many events
/// waiting; `tick` says whether a walk is due after so many of them.
pub open spec fn closing_actions(waiting: nat, tick: spec_fn(nat) -> bool) -> Seq<LoopAction>
    decreases waiting,
{
    let action = action_for(true, closing(waiting), tick(waiting));
    if action == LoopAction::HandleEvent && waiting > 0 {
        seq![action] + closing_actions((waiting - 1) as nat, tick)
    } else {
        seq![action]
    }
}

/// A symbolic link anywhere on the way keeps a page from being read.
pub proof fn law_no_link_on_the_way_is_followed(kinds: Seq<FoundKind>, i: int)
    requires
        0 <= i < kinds.len(),
        kinds[i] == FoundKind::Symlink,
    ensures
        !leads_to_file(kinds),
{
}

/// A watcher that is told to stop handles every event that is waiting, does
/// nothing else, and stops: no walk begins, and no event is dropped.
pub proof fn law_stopping_drains_the_queue(waiting: nat, tick: spec_fn(nat) -> bool)
    ensures
        closing_actions(waiting, tick).len() == waiting + 1,
        closing_actions(waiting, tick).last() == LoopAction::Stop,
        forall|i: int|
            0 <= i < waiting ==> #[trigger] closing_actions(waiting, tick)[i]
                == LoopAction::HandleEvent,
    decreases waiting,
{
    if waiting > 0 {
        let rest = (waiting - 1) as nat;
        law_stopping_drains_the_queue(rest, tick);
        let all = closing_actions(waiting, tick);
        assert(all =~= seq![LoopAction::HandleEvent] + closing_actions(rest, tick));
        assert forall|i: int| 0 <= i < waiting implies #[trigger] all[i]
            == LoopAction::HandleEvent by {
            if i > 0 {
                assert(all[i] == closing_actions(rest, tick)[i - 1]);
            }
        }
    }
}

/// The state of a walk from `root` after these answers to its questions, one
/// for each directory that was read.
pub open spec fn walk_after(root: Seq<char>, answers: Seq<Seq<Found>>) -> WalkState
    decreases answers.len(),
{
    if answers.len() == 0 {
        WalkState::start(root)
    } else {
        walk_after(root, answers.drop_last()).popped().all_seen(answers.last())
    }
}

/// The directories that were read for these answers.
pub open spec fn dirs_read(root: Seq<char>, answers: Seq<Seq<Found>>) -> Seq<usize>
    decreases answers.len(),
{
    if answers.len() == 0 {
        Seq::empty()
    } else {
        let before = walk_after(root, answers.drop_last());
        dirs_read(root, answers.drop_last()).push(before.stack.last())
    }
}

/// Some answer holds this entry.
pub open spec fn was_seen(answers: Seq<Seq<Found>>, entry: Found) -> bool {
    exists|i: int| 0 <= i < answers.len() && (#[trigger] answers[i]).contains(entry)
}

/// Some answer holds a regular file that is this page.
pub open spec fn file_was_seen(answers: Seq<Seq<Found>>, root: Seq<char>, page: Seq<char>) -> bool {
    exists|e: Found| #[trigger]
        was_seen(answers, e) && e.kind == FoundKind::File && page_at(root, e.path@) == Some(page)
}

/// Some answer holds a directory of this number.
pub open spec fn dir_was_seen(answers: Seq<Seq<Found>>, id: usize) -> bool {
    exists|e: Found| #[trigger]
        was_seen(answers, e) && e.kind == FoundKind::Dir && e.id == id
}

/// A walk finds the pages of regular files, and goes into directories: what a
/// symbolic link leads to is neither.
pub open spec fn found_soundly(state: WalkState, root: Seq<char>, answers: Seq<Seq<Found>>) -> bool {
    &&& forall|k: int|
        0 <= k < state.out.len() ==> file_was_seen(answers, root, #[trigger] state.out[k])
    &&& forall|k: int|
        0 <= k < state.stack.len() ==> (#[trigger] state.stack[k]) == 0 || dir_was_seen(
            answers,
            state.stack[k],
        )
}

/// A walk misses no page of a regular file that it has seen, and goes into
/// every directory that it has seen.
pub open spec fn found_all(state: WalkState, root: Seq<char>, answers: Seq<Seq<Found>>) -> bool {
    forall|e: Found| #[trigger]
        was_seen(answers, e) ==> match e.kind {
            FoundKind::File => match page_at(root, e.path@) {
                Some(page) => state.out.contains(page),
                None => true,
            },
            FoundKind::Dir => state.stack.contains(e.id) || dirs_read(root, answers).contains(
                e.id,
            ),
            _ => true,
        }
}

spec fn file_among(entries: Seq<Found>, root: Seq<char>, page: Seq<char>) -> bool {
    exists|e: Found| #[trigger]
        entries.contains(e) && e.kind == FoundKind::File && page_at(root, e.path@) == Some(page)
}

spec fn dir_among(entries: Seq<Found>, id: usize) -> bool {
    exists|e: Found| #[trigger]
        entries.contains(e) && e.kind == FoundKind::Dir && e.id == id
}

proof fn lemma_all_seen(state: WalkState, entries: Seq<Found>)
    ensures
        ({
            let after = state.all_seen(entries);
            &&& after.root == state.root
            &&& after.out.len() >= state.out.len()
            &&& after.stack.len() >= state.stack.len()
            &&& forall|k: int| 0 <= k < state.out.len() ==> #[trigger] after.out[k] == state.out[k]
            &&& forall|k: int|
                0 <= k < state.stack.len() ==> #[trigger] after.stack[k] == state.stack[k]
            &&& forall|k: int|
                state.out.len() <= k < after.out.len() ==> file_among(
                    entries,
                    state.root,
                    #[trigger] after.out[k],
                )
            &&& forall|k: int|
                state.stack.len() <= k < after.stack.len() ==> dir_among(
                    entries,
                    #[trigger] after.stack[k],
                )
            &&& forall|e: Found| #[trigger]
                entries.contains(e) ==> match e.kind {
                    FoundKind::File => match page_at(state.root, e.path@) {
                        Some(page) => after.out.contains(page),
                        None => true,
                    },
                    FoundKind::Dir => after.stack.contains(e.id),
                    _ => true,
                }
        }),
    decreases entries.len(),
{
    if entries.len() > 0 {
        let rest = entries.drop_last();
        let last = entries.last();
        lemma_all_seen(state, rest);
        let mid = state.all_seen(rest);
        let after = state.all_seen(entries);
        assert(entries[entries.len() - 1] == last);
        assert(entries.contains(last));
        assert forall|e: Found| #[trigger] rest.contains(e) implies entries.contains(e) by {
            let i = rest.index_of(e);
            assert(entries[i] == e);
        }
        assert forall|k: int| state.out.len() <= k < after.out.len() implies file_among(
            entries,
            state.root,
            #[trigger] after.out[k],
        ) by {
            if k < mid.out.len() {
                assert(after.out[k] == mid.out[k]);
                let e = choose|e: Found| #[trigger]
                    rest.contains(e) && e.kind == FoundKind::File && page_at(state.root, e.path@)
                        == Some(mid.out[k]);
                assert(entries.contains(e));
            } else {
                assert(entries.contains(last));
            }
        }
        assert forall|k: int| state.stack.len() <= k < after.stack.len() implies dir_among(
            entries,
            #[trigger] after.stack[k],
        ) by {
            if k < mid.stack.len() {
                assert(after.stack[k] == mid.stack[k]);
                let e = choose|e: Found| #[trigger]
                    rest.contains(e) && e.kind == FoundKind::Dir && e.id == mid.stack[k];
                assert(entries.contains(e));
            } else {
                assert(entries.contains(last));
            }
        }
        assert forall|e: Found| #[trigger] entries.contains(e) implies match e.kind {
            FoundKind::File => match page_at(state.root, e.path@) {
                Some(page) => after.out.contains(page),
                None => true,
            },
            FoundKind::Dir => after.stack.contains(e.id),
            _ => true,
        } by {
            let i = entries.index_of(e);
            if i < rest.len() {
                assert(rest[i] == e);
                assert(rest.contains(e));
                match e.kind {
                    FoundKind::File => {
                        if let Some(page) = page_at(state.root, e.path@) {
                            let k = mid.out.index_of(page);
                            assert(after.out[k] == page);
                        }
                    },
                    FoundKind::Dir => {
                        let k = mid.stack.index_of(e.id);
                        assert(after.stack[k] == e.id);
                    },
                    _ => {},
                }
            } else {
                match e.kind {
                    FoundKind::File => {
                        if let Some(page) = page_at(state.root, e.path@) {
                            assert(after.out[after.out.len() - 1] == page);
                        }
                    },
                    FoundKind::Dir => {
                        assert(after.stack[after.stack.len() - 1] == e.id);
                    },
                    _ => {},
                }
            }
        }
    }
}

/// However a tree answers, a walk finds the pages of the regular files in the
/// directories that it reads, all of them and no others, and it reads or has
/// still to read every directory that it sees; symbolic links lead it nowhere.
pub proof fn law_walk_finds_every_page_and_follows_no_link(
    root: Seq<char>,
    answers: Seq<Seq<Found>>,
)
    ensures
        walk_after(root, answers).root == root,
        found_soundly(walk_after(root, answers), root, answers),
        found_all(walk_after(root, answers), root, answers),
    decreases answers.len(),
{
    if answers.len() == 0 {
        assert(WalkState::start(root).stack[0] == 0);
    } else {
        let rest = answers.drop_last();
        let entries = answers.last();
        law_walk_finds_every_page_and_follows_no_link(root, rest);
        let before = walk_after(root, rest);
        let mid = before.popped();
        let after = walk_after(root, answers);
        lemma_all_seen(mid, entries);
        assert forall|e: Found| #[trigger] was_seen(rest, e) implies was_seen(answers, e) by {
            let i = choose|i: int| 0 <= i < rest.len() && (#[trigger] rest[i]).contains(e);
            assert(answers[i] == rest[i]);
            assert(answers[i].contains(e));
        }
        assert forall|e: Found| #[trigger] entries.contains(e) implies was_seen(answers, e) by {
            assert(answers[answers.len() - 1].contains(e));
        }
        assert forall|k: int| 0 <= k < after.out.len() implies file_was_seen(
            answers,
            root,
            #[trigger] after.out[k],
        ) by {
            if k < before.out.len() {
                assert(after.out[k] == mid.out[k]);
                let e = choose|e: Found| #[trigger]
                    was_seen(rest, e) && e.kind == FoundKind::File && page_at(root, e.path@)
                        == Some(before.out[k]);
                assert(was_seen(answers, e));
            } else {
                let e = choose|e: Found| #[trigger]
                    entries.contains(e) && e.kind == FoundKind::File && page_at(root, e.path@)
                        == Some(after.out[k]);
                assert(was_seen(answers, e));
            }
        }
        assert forall|k: int| 0 <= k < after.stack.len() implies (#[trigger] after.stack[k]) == 0
            || dir_was_seen(answers, after.stack[k]) by {
            if k < mid.stack.len() {
                assert(after.stack[k] == mid.stack[k]);
                assert(mid.stack[k] == before.stack[k]);
                if before.stack[k] != 0 {
                    let e = choose|e: Found| #[trigger]
                        was_seen(rest, e) && e.kind == FoundKind::Dir && e.id == before.stack[k];
                    assert(was_seen(answers, e));
                }
            } else {
                let e = choose|e: Found| #[trigger]
                    entries.contains(e) && e.kind == FoundKind::Dir && e.id == after.stack[k];
                assert(was_seen(answers, e));
            }
        }
        let read = dirs_read(root, answers);
        let read_before = dirs_read(root, rest);
        assert forall|e: Found| #[trigger] was_seen(answers, e) implies match e.kind {
            FoundKind::File => match page_at(root, e.path@) {
                Some(page) => after.out.contains(page),
                None => true,
            },
            FoundKind::Dir => after.stack.contains(e.id) || read.contains(e.id),
            _ => true,
        } by {
            let i = choose|i: int| 0 <= i < answers.len() && (#[trigger] answers[i]).contains(e);
            if i < rest.len() {
                assert(rest[i] == answers[i]);
                assert(was_seen(rest, e));
                match e.kind {
                    FoundKind::File => {
                        if let Some(page) = page_at(root, e.path@) {
                            let k = before.out.index_of(page);
                            assert(after.out[k] == mid.out[k]);
                        }
                    },
                    FoundKind::Dir => {
                        if read_before.contains(e.id) {
                            let k = read_before.index_of(e.id);
                            assert(read[k] == e.id);
                        } else {
                            let k = before.stack.index_of(e.id);
                            if k < mid.stack.len() {
                                assert(after.stack[k] == mid.stack[k]);
                            } else {
                                assert(read[read.len() - 1] == e.id);
                            }
                        }
                    },
                    _ => {},
                }
            } else {
                assert(entries.contains(e));
            }
        }
    }
}

/// Which files are pages by their names: those whose names end in `.md` behind
/// something, but for those that begin as files on their way do.
pub proof fn law_which_names_are_pages(dir: Seq<char>, name: Seq<char>, stem: Seq<char>)
    requires
        plain_name(name),
        name != ".."@,
    ensures
        name == stem + ".md"@ ==> (markdown(dir.push('/') + name) <==> stem.len() > 0),
        markdown(dir.push('/') + name) ==> name == name.take(name.len() - 3) + ".md"@ && name.len()
            > 3,
        tempfile(dir.push('/') + name) <==> begins_with(name, ".ai-memory-tmp."@),
        name == ".ai-memory-tmp."@ + stem ==> tempfile(dir.push('/') + name),
{
    reveal_strlit(".");
    reveal_strlit("md");
    reveal_strlit(".md");
    let path = dir.push('/') + name;
    law_what_the_file_name_is(dir, name);
    assert("."@ + "md"@ =~= ".md"@);
    assert(stem + "."@ + "md"@ =~= stem + ".md"@);
    law_what_the_extension_is(path, stem, "md"@);
    if markdown(path) {
        let cut = name.len() - 3;
        assert(name.take(cut) + "."@ + "md"@ =~= name.take(cut) + ".md"@);
    }
    law_beginnings_and_ends(name, ".ai-memory-tmp."@, stem);
}

/// The file of a page is read again as that page: where its name is that of a
/// page and not that of a file on its way.
pub proof fn law_the_file_of_a_page_is_read(root: Seq<char>, page: Seq<char>)
    requires
        valid_page(page),
        !page.contains('\\'),
        names_something(page, spans(page, '/').first()),
        names_something(page, spans(page, '/').last()),
    ensures
        ({
            let path = join_text(root, page);
            page_at(root, path) == if markdown(path) && !tempfile(path) {
                Some(page)
            } else {
                None
            }
        }),
{
    law_the_file_of_a_page_is_that_page(root, page);
}

/// A file outside the root of the wiki is no page, nor is one that leads upwards.
pub proof fn law_no_page_outside_the_wiki(root: Seq<char>, path: Seq<char>)
    ensures
        !lies_under(root, path) ==> page_at(root, path) is None && page_below(root, path) is None,
        page_below(root, path) matches Some(page) ==> page == slashed(below(root, path))
            && valid_page(page),
        page_below(root, path) is None ==> !lies_under(root, path) || !valid_page(
            slashed(below(root, path)),
        ),
        page_at(root, path) is Some ==> page_at(root, path) == page_below(root, path),
{
}

/// A page is written with slashes only, and is otherwise as its path.
pub proof fn law_slashes(s: Seq<char>, i: int)
    requires
        0 <= i < s.len(),
    ensures
        slashed(s).len() == s.len(),
        s[i] == '\\' ==> slashed(s)[i] == '/',
        s[i] != '\\' ==> slashed(s)[i] == s[i],
{
}

/// What makes the watcher look at a file: that something was made or changed, or
/// that it cannot be told; never that something was read or removed.
pub proof fn law_which_events_count(kind: ChangeKind)
    ensures
        brings_content(kind) <==> match kind {
            ChangeKind::Create | ChangeKind::Modify | ChangeKind::Other => true,
            ChangeKind::Any | ChangeKind::Access | ChangeKind::Remove => false,
        },
{
}

/// Events that wait are always handled first; a stop comes only once none waits,
/// and before any walk; and nothing but a due walk makes the watcher walk.
pub proof fn law_what_comes_first(shutdown: bool, queue: EventQueue, tick: bool)
    ensures
        action_for(shutdown, queue, tick) == LoopAction::HandleEvent <==> queue
            == EventQueue::Event,
        action_for(shutdown, queue, tick) == LoopAction::Stop <==> shutdown && queue
            != EventQueue::Event,
        action_for(shutdown, queue, tick) == LoopAction::Reconcile <==> tick && !shutdown && queue
            != EventQueue::Event,
        action_for(shutdown, queue, tick) == LoopAction::Wait <==> !tick && !shutdown && queue
            != EventQueue::Event,
        RECONCILE_INTERVAL == 30 * 1000,
        DEBOUNCE_WINDOW == 300,
{
}

/// A page is read exactly where its path goes through directories to a regular
/// file.
pub proof fn law_what_is_read(way: Seq<FoundKind>, last: FoundKind)
    ensures
        !leads_to_file(Seq::empty()),
        leads_to_file(seq![last]) <==> last == FoundKind::File,
        leads_to_file(way.push(last)) <==> last == FoundKind::File && forall|i: int|
            0 <= i < way.len() ==> #[trigger] way[i] == FoundKind::Dir,
{
    let all = way.push(last);
    if leads_to_file(all) {
        assert forall|i: int| 0 <= i < way.len() implies #[trigger] way[i] == FoundKind::Dir by {
            assert(all[i] == way[i]);
        }
    }
}

/// One more path of an event adds its page behind those before it, with its own
/// place, and changes nothing where it is the file of none.
pub proof fn law_each_path_of_an_event(root: Seq<char>, paths: Seq<String>, next: String)
    ensures
        candidates(root, Seq::empty()) == Seq::<(int, Seq<char>)>::empty(),
        candidates(root, paths.push(next)) == match page_at(root, next@) {
            Some(page) => candidates(root, paths).push((paths.len() as int, page)),
            None => candidates(root, paths),
        },
{
    assert(paths.push(next).drop_last() =~= paths);
}

/// A walk begins at its root, with nothing found; and it takes the directory that
/// it came to last, which it then has no more to read.
pub proof fn law_how_a_walk_goes(root: Seq<char>, state: WalkState)
    ensures
        WalkState::start(root).root == root,
        WalkState::start(root).stack == seq![0usize],
        WalkState::start(root).out.len() == 0,
        state.popped().root == state.root,
        state.popped().out == state.out,
        state.stack.len() > 0 ==> state.popped().stack.push(state.stack.last()) == state.stack,
        state.stack.len() == 0 ==> state.popped().stack.len() == 0,
{
    if state.stack.len() > 0 {
        assert(state.popped().stack.push(state.stack.last()) =~= state.stack);
    }
}

/// What a walk makes of the entries of a directory, one after the other: a
/// directory is to be read, a page is found, once each; anything else is passed
/// over.
pub proof fn law_what_a_walk_makes_of_an_entry(
    state: WalkState,
    entries: Seq<Found>,
    next: Found,
)
    ensures
        state.all_seen(Seq::empty()) == state,
        ({
            let before = state.all_seen(entries);
            let after = state.all_seen(entries.push(next));
            &&& after.root == before.root
            &&& next.kind == FoundKind::Dir ==> after.stack == before.stack.push(next.id)
                && after.out == before.out
            &&& next.kind == FoundKind::File && page_at(before.root, next.path@) is Some
                ==> after.out == before.out.push(page_at(before.root, next.path@)->0)
                && after.stack == before.stack
            &&& next.kind == FoundKind::File && page_at(before.root, next.path@) is None
                ==> after == before
            &&& next.kind == FoundKind::Symlink || next.kind == FoundKind::Other ==> after
                == before
        }),
{
    assert(entries.push(next).drop_last() =~= entries);
}

} // verus!
