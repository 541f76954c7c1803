//! Which changes under the wiki root lead to a page being read again.
//!
//! Two things drive it: events of the file system, and a walk over the whole
//! tree at intervals, which catches the events that the system dropped.
//! Directories whose names begin with a dot are not left out.

use crate::page::{valid_page, PagePath, WikiError};
use crate::paths::{below, extension_is, file_name, file_name_of, has_extension, lies_under};
use crate::paths::strip_root;
use crate::text::{begins_with, chars_of, starts_with};
use vstd::prelude::*;
use vstd::string::{StrSliceExecFns, StringExecFns};

verus! {

/// Milliseconds between two walks over the tree.
pub const RECONCILE_INTERVAL: u64 = 30_000;

/// Milliseconds over which events of the file system are gathered.
pub const DEBOUNCE_WINDOW: u64 = 300;

/// The path has the extension of a page.
pub open spec fn markdown(path: Seq<char>) -> bool {
    extension_is(path, "md"@)
}

/// The path is that of a file on its way to replacing a page.
pub open spec fn tempfile(path: Seq<char>) -> bool {
    match file_name(path) {
        Some(name) => begins_with(name, ".ai-memory-tmp."@),
        None => false,
    }
}

/// `/` in place of each `\`.
pub open spec fn slashed(s: Seq<char>) -> Seq<char> {
    s.map_values(
        |c: char|
            if c == '\\' {
                '/'
            } else {
                c
            },
    )
}

/// The page that a file is, seen from the root of the wiki.
pub open spec fn page_below(root: Seq<char>, path: Seq<char>) -> Option<Seq<char>> {
    if lies_under(root, path) && valid_page(slashed(below(root, path))) {
        Some(slashed(below(root, path)))
    } else {
        None
    }
}

/// The page to read again where a regular file at `path` has changed.
pub open spec fn page_at(root: Seq<char>, path: Seq<char>) -> Option<Seq<char>> {
    if markdown(path) && !tempfile(path) {
        page_below(root, path)
    } else {
        None
    }
}

/// Whether `path` has the extension of a page.
pub fn is_markdown(path: &str) -> (r: bool)
    ensures
        r == markdown(path@),
{
    has_extension(path, "md")
}

/// Whether `path` is that of a file on its way to replacing a page.
pub fn is_tempfile(path: &str) -> (r: bool)
    ensures
        r == tempfile(path@),
{
    match file_name_of(path) {
        Some(name) => starts_with(name.as_str(), ".ai-memory-tmp."),
        None => false,
    }
}

fn with_slashes(s: &str) -> (r: String)
    ensures
        r@ == slashed(s@),
{
    let cs: Vec<char> = chars_of(s);
    let mut r = String::new();
    let mut i: usize = 0;
    proof {
        reveal_strlit("/");
    }
    assert(r@ =~= slashed(s@.take(0)));
    while i < cs.len()
        invariant
            i <= cs.len(),
            cs@ == s@,
            "/"@ == seq!['/'],
            r@ == slashed(s@.take(i as int)),
        decreases cs.len() - i,
    {
        if cs[i] == '\\' {
            r.append("/");
        } else {
            r.append(s.substring_char(i, i + 1));
        }
        assert(r@ =~= slashed(s@.take(i + 1)));
        i += 1;
    }
    assert(s@.take(cs.len() as int) =~= s@);
    r
}

/// The page that the file at `abs` is, seen from the root of the wiki.
pub fn page_path_relative_to(root: &str, abs: &str) -> (r: Option<PagePath>)
    ensures
        match r {
            Some(page) => page_below(root@, abs@) == Some(page@),
            None => page_below(root@, abs@) is None,
        },
{
    match strip_root(root, abs) {
        Some(rel) => {
            match PagePath::new(with_slashes(rel.as_str())) {
                Ok(page) => Some(page),
                Err(_) => None,
            }
        },
        None => None,
    }
}

/// The page to read again where a regular file at `path` has changed.
pub fn page_of_file(root: &str, path: &str) -> (r: Option<PagePath>)
    ensures
        match r {
            Some(page) => page_at(root@, path@) == Some(page@),
            None => page_at(root@, path@) is None,
        },
{
    if !is_markdown(path) || is_tempfile(path) {
        return None;
    }
    page_path_relative_to(root, path)
}

/// What an event of the file system says.
#[derive(Debug, Clone, Copy, PartialEq, Eq, Structural)]
pub enum ChangeKind {
    Any,
    Access,
    Create,
    Modify,
    Remove,
    Other,
}

/// The event may mean that the content of a file is new.
pub open spec fn brings_content(kind: ChangeKind) -> bool {
    kind == ChangeKind::Create || kind == ChangeKind::Modify || kind == ChangeKind::Other
}

/// A page to read again, and the place of its file among the paths of the
/// event.
#[derive(Debug)]
pub struct Candidate {
    pub index: usize,
    pub page: PagePath,
}

/// The pages to read again for the paths of an event, each with the place of
/// its file among them, in their order.
pub open spec fn candidates(root: Seq<char>, paths: Seq<String>) -> Seq<(int, Seq<char>)>
    decreases paths.len(),
{
    if paths.len() == 0 {
        Seq::empty()
    } else {
        let before = candidates(root, paths.drop_last());
        match page_at(root, paths.last()@) {
            Some(page) => before.push((paths.len() - 1, page)),
            None => before,
        }
    }
}

/// What a list of candidates says.
pub open spec fn as_candidates(v: Seq<Candidate>) -> Seq<(int, Seq<char>)> {
    v.map_values(|c: Candidate| (c.index as int, c.page@))
}

/// The pages that an event may concern. What is left to ask of each is what
/// stands at its path when its turn comes (see [`reads_path`]): during a rename
/// there may be nothing.
pub fn event_candidates(kind: ChangeKind, root: &str, paths: &Vec<String>) -> (r: Vec<Candidate>)
    ensures
        as_candidates(r@) == if brings_content(kind) {
            candidates(root@, paths@)
        } else {
            Seq::empty()
        },
{
    let mut r: Vec<Candidate> = Vec::new();
    assert(as_candidates(r@) =~= Seq::empty());
    match kind {
        ChangeKind::Create | ChangeKind::Modify | ChangeKind::Other => {},
        _ => {
            return r;
        },
    }
    let mut i: usize = 0;
    assert(paths@.take(0) =~= Seq::<String>::empty());
    while i < paths.len()
        invariant
            i <= paths.len(),
            as_candidates(r@) == candidates(root@, paths@.take(i as int)),
        decreases paths.len() - i,
    {
        let ghost before = as_candidates(r@);
        assert(paths@.take(i + 1).drop_last() =~= paths@.take(i as int));
        match page_of_file(root, paths[i].as_str()) {
            Some(page) => {
                let ghost text = page@;
                r.push(Candidate { index: i, page });
                assert(as_candidates(r@) =~= before.push((i as int, text)));
            },
            None => {},
        }
        i += 1;
    }
    assert(paths@.take(paths.len() as int) =~= paths@);
    r
}

/// What may be waiting for the watcher.
#[derive(Debug, Clone, Copy, PartialEq, Eq, Structural)]
pub enum EventQueue {
    /// An event is there.
    Event,
    /// None is there yet.
    Pending,
    /// None will ever come.
    Closed,
}

/// What the watcher does next.
#[derive(Debug, Clone, Copy, PartialEq, Eq, Structural)]
pub enum LoopAction {
    Stop,
    HandleEvent,
    Reconcile,
    Wait,
}

/// What the watcher does next: events that are there come first, then a
/// request to stop, then the walk over the tree.
pub open spec fn action_for(shutdown: bool, queue: EventQueue, tick: bool) -> LoopAction {
    if queue == EventQueue::Event {
        LoopAction::HandleEvent
    } else if shutdown {
        LoopAction::Stop
    } else if tick {
        LoopAction::Reconcile
    } else {
        LoopAction::Wait
    }
}

/// What the watcher does next. A request to stop waits until the events that
/// are there have been handled, and events come before the walk over the tree.
/// Without events the watcher goes on with its walks.
pub fn next_action(shutdown: bool, queue: EventQueue, tick: bool) -> (r: LoopAction)
    ensures
        r == action_for(shutdown, queue, tick),
{
    match queue {
        EventQueue::Event => LoopAction::HandleEvent,
        _ => if shutdown {
            LoopAction::Stop
        } else if tick {
            LoopAction::Reconcile
        } else {
            LoopAction::Wait
        },
    }
}

/// What stands in a directory.
#[derive(Debug, Clone, Copy, PartialEq, Eq, Structural)]
pub enum FoundKind {
    Symlink,
    Dir,
    File,
    Other,
}

/// What stands at each component of a path, from the root on, leads to a
/// regular file without a symbolic link on the way.
pub open spec fn leads_to_file(kinds: Seq<FoundKind>) -> bool {
    &&& kinds.len() > 0
    &&& kinds.last() == FoundKind::File
    &&& forall|i: int| 0 <= i < kinds.len() - 1 ==> #[trigger] kinds[i] == FoundKind::Dir
}

/// Whether a page is read again, where `kinds` is what stands at each component
/// of its path below the root: directories, then a regular file. What a
/// symbolic link leads to is not read, wherever on the way it stands.
pub fn reads_path(kinds: &Vec<FoundKind>) -> (r: bool)
    ensures
        r == leads_to_file(kinds@),
{
    if kinds.len() == 0 || !reads_again(kinds[kinds.len() - 1]) {
        return false;
    }
    let mut i: usize = 0;
    while i < kinds.len() - 1
        invariant
            kinds.len() > 0,
            i <= kinds.len() - 1,
            forall|j: int| 0 <= j < i ==> #[trigger] kinds@[j] == FoundKind::Dir,
        decreases kinds.len() - i,
    {
        match kinds[i] {
            FoundKind::Dir => {},
            _ => {
                return false;
            },
        }
        i += 1;
    }
    true
}

/// Whether a page is read again where this stands at its path: only a regular
/// file is, and what a symbolic link leads to is not.
pub fn reads_again(kind: FoundKind) -> (r: bool)
    ensures
        r == (kind == FoundKind::File),
{
    match kind {
        FoundKind::File => true,
        _ => false,
    }
}

/// One entry of a directory.
#[derive(Debug)]
pub struct Found {
    /// The number that the caller keeps its path under. The root of the walk
    /// has the number zero.
    pub id: usize,
    /// Its path, as text.
    pub path: String,
    pub kind: FoundKind,
}

/// What reading a directory brought.
#[derive(Debug)]
pub enum Listing {
    Entries(Vec<Found>),
    /// The directory is gone.
    NotFound,
    /// Reading it, or an entry of it, failed with this message.
    Failed(String),
}

/// A walk over the tree of pages: the directories that are still to be read,
/// and the pages that were found.
pub struct MarkdownWalk {
    root: String,
    stack: Vec<usize>,
    out: Vec<PagePath>,
}

/// A [`MarkdownWalk`] as a mathematical value.
#[verifier::ext_equal]
pub struct WalkState {
    pub root: Seq<char>,
    pub stack: Seq<usize>,
    pub out: Seq<Seq<char>>,
}

/// The paths of a list of pages.
pub open spec fn page_texts(v: Seq<PagePath>) -> Seq<Seq<char>> {
    v.map_values(|p: PagePath| p@)
}

impl View for MarkdownWalk {
    type V = WalkState;

    closed spec fn view(&self) -> WalkState {
        WalkState {
            root: self.root@,
            stack: self.stack@,
            out: page_texts(self.out@),
        }
    }
}

impl WalkState {
    /// Before anything is read: the root is to be read.
    pub open spec fn start(root: Seq<char>) -> Self {
        WalkState { root, stack: seq![0usize], out: Seq::empty() }
    }

    /// The directory that is read next has been taken.
    pub open spec fn popped(self) -> Self {
        WalkState {
            stack: if self.stack.len() == 0 {
                self.stack
            } else {
                self.stack.drop_last()
            },
            ..self
        }
    }

    /// One more entry has been seen: a directory is to be read, a page is
    /// found, and a symbolic link is passed over.
    pub open spec fn seen(self, entry: Found) -> Self {
        match entry.kind {
            FoundKind::Dir => WalkState { stack: self.stack.push(entry.id), ..self },
            FoundKind::File => match page_at(self.root, entry.path@) {
                Some(page) => WalkState { out: self.out.push(page), ..self },
                None => self,
            },
            _ => self,
        }
    }

    /// The entries of a directory have been seen, one after the other.
    pub open spec fn all_seen(self, entries: Seq<Found>) -> Self
        decreases entries.len(),
    {
        if entries.len() == 0 {
            self
        } else {
            self.all_seen(entries.drop_last()).seen(entries.last())
        }
    }
}

impl MarkdownWalk {
    /// A walk over the tree at `root`.
    pub fn new(root: &str) -> (r: Self)
        ensures
            r@ == WalkState::start(root@),
    {
        let mut stack: Vec<usize> = Vec::new();
        stack.push(0);
        let out: Vec<PagePath> = Vec::new();
        assert(stack@ =~= seq![0usize]);
        assert(page_texts(out@) =~= Seq::empty());
        MarkdownWalk { root: root.to_owned(), stack, out }
    }

    /// The number of the directory to read next; `None` once the walk is over.
    pub fn next_dir(&mut self) -> (r: Option<usize>)
        ensures
            final(self)@ == old(self)@.popped(),
            match r {
                Some(dir) => old(self)@.stack.len() > 0 && dir == old(self)@.stack.last(),
                None => old(self)@.stack.len() == 0,
            },
    {
        self.stack.pop()
    }

    /// Takes what reading the directory brought. One that is gone counts as
    /// empty; any other failure ends the walk.
    pub fn take_listing(&mut self, listing: Listing) -> (r: Result<(), WikiError>)
        ensures
            match listing {
                Listing::Entries(entries) => r is Ok && final(self)@ == old(self)@.all_seen(
                    entries@,
                ),
                Listing::NotFound => r is Ok && final(self)@ == old(self)@,
                Listing::Failed(message) => {
                    &&& r is Err
                    &&& r->Err_0->Io_0@ == message@
                    &&& final(self)@ == old(self)@
                },
            },
    {
        match listing {
            Listing::Entries(entries) => {
                let mut i: usize = 0;
                assert(entries@.take(0) =~= Seq::<Found>::empty());
                while i < entries.len()
                    invariant
                        i <= entries.len(),
                        self@ == old(self)@.all_seen(entries@.take(i as int)),
                    decreases entries.len() - i,
                {
                    let ghost before = self@;
                    assert(entries@.take(i + 1).drop_last() =~= entries@.take(i as int));
                    match entries[i].kind {
                        FoundKind::Dir => {
                            self.stack.push(entries[i].id);
                        },
                        FoundKind::File => {
                            match page_of_file(self.root.as_str(), entries[i].path.as_str()) {
                                Some(page) => {
                                    let ghost text = page@;
                                    self.out.push(page);
                                    assert(self@.out =~= before.out.push(text));
                                },
                                None => {},
                            }
                        },
                        _ => {},
                    }
                    i += 1;
                }
                assert(entries@.take(entries.len() as int) =~= entries@);
                Ok(())
            },
            Listing::NotFound => Ok(()),
            Listing::Failed(message) => Err(WikiError::Io(message)),
        }
    }

    /// The pages that were found.
    pub fn into_pages(self) -> (r: Vec<PagePath>)
        ensures
            page_texts(r@) == self@.out,
    {
        self.out
    }
}

} // verus!
