//! The history of the wiki: when a commit is made, and what is read back.
//!
//! The wiki is a git repository. Its commits carry a fixed author, so that the
//! history does not give away the maintainer's own identity.

use crate::page::WikiError;
use crate::text::same_text;
use vstd::prelude::*;
use vstd::string::StringExecFns;

verus! {

/// The author's name in the wiki's commits.
pub const COMMIT_AUTHOR_NAME: &'static str = "ai-memory";

/// The author's address in the wiki's commits.
pub const COMMIT_AUTHOR_EMAIL: &'static str = "ai-memory@local";

/// A handle on the wiki's repository.
#[derive(Debug)]
pub struct GitAdapter {
    root: String,
}

impl View for GitAdapter {
    type V = Seq<char>;

    closed spec fn view(&self) -> Seq<char> {
        self.root@
    }
}

impl Clone for GitAdapter {
    fn clone(&self) -> (r: Self)
        ensures
            r@ == self@,
    {
        GitAdapter { root: self.root.clone() }
    }
}

/// One commit of the wiki.
#[derive(Debug)]
pub struct Checkpoint {
    /// Full commit OID.
    pub oid: String,
    /// Commit summary: the first line of the message.
    pub summary: String,
    /// The author's time stamp, in seconds since the Unix epoch.
    pub time: i64,
}

impl Clone for Checkpoint {
    fn clone(&self) -> (r: Self)
        ensures
            r == *self,
    {
        Checkpoint { oid: self.oid.clone(), summary: self.summary.clone(), time: self.time }
    }
}

/// What was found at the wiki's root.
#[derive(Debug)]
pub enum RepoState {
    /// The directory could not be made.
    NoDirectory(String),
    /// It was a repository already, and is left alone.
    Existing,
    /// It was none, and has been made one.
    Initialised,
    /// It was none, and making it one failed.
    InitFailed(String),
}

/// Where `HEAD` points.
#[derive(Debug)]
pub enum HeadState {
    /// It cannot be resolved, as in a repository without commits.
    Unborn,
    /// It can, but to no commit directly.
    NoTarget,
    /// To this commit, whose tree was looked up.
    At { oid: String, tree: Result<String, String> },
}

/// What a commit of everything comes to.
#[derive(Debug)]
pub enum CommitPlan {
    /// There is nothing to commit.
    Nothing,
    /// Commit, on top of the parent where there is one.
    Commit { parent: Option<String> },
}

/// One step back through the history.
#[derive(Debug)]
pub struct CommitInfo {
    pub oid: String,
    /// The summary, where there is one that can be read.
    pub summary: Option<String>,
    /// The author's time stamp, in seconds since the Unix epoch.
    pub time: i64,
}

/// The history, newest commit first.
#[derive(Debug)]
pub enum History {
    /// The repository could not be read.
    Unreadable(String),
    /// There is no commit yet.
    Empty,
    /// Its commits, each of which may be unreadable.
    Commits(Vec<Result<CommitInfo, String>>),
}

/// What stands at a path in a revision.
#[derive(Debug)]
pub enum Lookup {
    /// The revision, the path or what stands there could not be read.
    Failed(String),
    /// Something that is not a file.
    NotAFile,
    /// A file, with this content.
    Blob(Vec<u8>),
}

/// The index holds what the commit at `HEAD` holds.
pub open spec fn unchanged(tree: Seq<char>, head: HeadState) -> bool {
    match head {
        HeadState::At { oid, tree: Ok(t) } => t@ == tree,
        _ => false,
    }
}

/// There is something to commit: it differs from `HEAD`, and it is not the
/// empty index of a repository without commits.
pub open spec fn worth_a_commit(tree: Seq<char>, head: HeadState, index_empty: bool) -> bool {
    !unchanged(tree, head) && !(head is Unborn && index_empty)
}

impl GitAdapter {
    /// A handle on the repository at `root`, which is made one if need be.
    pub fn open_or_init(root: &str, state: RepoState) -> (r: Result<GitAdapter, WikiError>)
        ensures
            match state {
                RepoState::Existing | RepoState::Initialised => r is Ok && r->Ok_0@ == root@,
                RepoState::NoDirectory(message) => r is Err && r->Err_0->Io_0@ == message@,
                RepoState::InitFailed(message) => r is Err && r->Err_0->Io_0@ == message@,
            },
    {
        match state {
            RepoState::Existing => Ok(GitAdapter { root: root.to_owned() }),
            RepoState::Initialised => Ok(GitAdapter { root: root.to_owned() }),
            RepoState::NoDirectory(message) => Err(WikiError::Io(message)),
            RepoState::InitFailed(message) => Err(WikiError::Io(message)),
        }
    }

    /// The wiki's root.
    pub fn root(&self) -> (r: &str)
        ensures
            r@ == self@,
    {
        self.root.as_str()
    }

    /// What to do once everything is staged: `tree` is what the index holds.
    pub fn commit_all(&self, tree: &str, head: &HeadState, index_empty: bool) -> (r: Result<
        CommitPlan,
        WikiError,
    >)
        ensures
            !worth_a_commit(tree@, *head, index_empty) ==> r is Ok && r->Ok_0 is Nothing,
            worth_a_commit(tree@, *head, index_empty) ==> match *head {
                HeadState::At { oid, tree: Ok(_) } => {
                    &&& r is Ok
                    &&& r->Ok_0 matches CommitPlan::Commit { parent } && parent is Some
                        && parent->Some_0@ == oid@
                },
                HeadState::At { oid, tree: Err(message) } => r is Err && r->Err_0->Io_0@
                    == message@,
                _ => {
                    &&& r is Ok
                    &&& r->Ok_0 matches CommitPlan::Commit { parent } && parent is None
                },
            },
    {
        match head {
            HeadState::At { oid, tree: found } => {
                match found {
                    Ok(t) => {
                        if same_text(t.as_str(), tree) {
                            Ok(CommitPlan::Nothing)
                        } else {
                            Ok(CommitPlan::Commit { parent: Some(oid.clone()) })
                        }
                    },
                    Err(message) => Err(WikiError::Io(message.clone())),
                }
            },
            HeadState::Unborn => {
                if index_empty {
                    Ok(CommitPlan::Nothing)
                } else {
                    Ok(CommitPlan::Commit { parent: None })
                }
            },
            HeadState::NoTarget => Ok(CommitPlan::Commit { parent: None }),
        }
    }

    /// How many commits lead to `HEAD`: none where they cannot be counted.
    pub fn commit_count(&self, counted: Option<usize>) -> (r: usize)
        ensures
            r == match counted {
                Some(n) => n,
                None => 0,
            },
    {
        match counted {
            Some(n) => n,
            None => 0,
        }
    }

    /// The most recent commits, at most `limit` of them, newest first. One
    /// that cannot be read among them is an error.
    pub fn recent_checkpoints(&self, limit: usize, history: History) -> (r: Result<
        Vec<Checkpoint>,
        WikiError,
    >)
        ensures
            limit == 0 ==> r is Ok && r->Ok_0@.len() == 0,
            limit > 0 ==> match history {
                History::Unreadable(message) => r is Err && r->Err_0->Io_0@ == message@,
                History::Empty => r is Ok && r->Ok_0@.len() == 0,
                History::Commits(commits) => {
                    let n = within(limit as nat, commits@.len());
                    match r {
                        Ok(found) => {
                            &&& found@.len() == n
                            &&& forall|i: int|
                                0 <= i < n ==> commits@[i] is Ok && (#[trigger] found@[i]).shows(
                                    commits@[i]->Ok_0,
                                )
                        },
                        Err(e) => exists|i: int|
                            {
                                &&& 0 <= i < n
                                &&& (#[trigger] commits@[i]) is Err
                                &&& e->Io_0@ == commits@[i]->Err_0@
                                &&& forall|j: int| 0 <= j < i ==> (#[trigger] commits@[j]) is Ok
                            },
                    }
                },
            },
    {
        let mut out: Vec<Checkpoint> = Vec::new();
        if limit == 0 {
            return Ok(out);
        }
        match history {
            History::Unreadable(message) => Err(WikiError::Io(message)),
            History::Empty => Ok(out),
            History::Commits(commits) => {
                let n: usize = if commits.len() <= limit {
                    commits.len()
                } else {
                    limit
                };
                let mut i: usize = 0;
                while i < n
                    invariant
                        i <= n <= commits.len(),
                        out.len() == i,
                        n == within(limit as nat, commits@.len()),
                        limit > 0,
                        history == History::Commits(commits),
                        forall|j: int| 0 <= j < i ==> (#[trigger] commits@[j]) is Ok,
                        forall|j: int|
                            0 <= j < i ==> commits@[j] is Ok && (#[trigger] out@[j]).shows(
                                commits@[j]->Ok_0,
                            ),
                    decreases n - i,
                {
                    match &commits[i] {
                        Ok(info) => {
                            let summary = match &info.summary {
                                Some(s) => s.clone(),
                                None => "(no summary)".to_owned(),
                            };
                            out.push(
                                Checkpoint { oid: info.oid.clone(), summary, time: info.time },
                            );
                        },
                        Err(message) => {
                            return Err(WikiError::Io(message.clone()));
                        },
                    }
                    i += 1;
                }
                Ok(out)
            },
        }
    }

    /// The content of the file at `path` in the revision `rev`.
    pub fn file_at_rev(&self, rev: &str, path: &str, lookup: Lookup) -> (r: Result<
        Vec<u8>,
        WikiError,
    >)
        ensures
            match lookup {
                Lookup::Blob(content) => r is Ok && r->Ok_0 == content,
                Lookup::Failed(message) => r is Err && r->Err_0->Io_0@ == message@,
                Lookup::NotAFile => r is Err && r->Err_0->Io_0@ == path@ + " at "@ + rev@
                    + " is not a file"@,
            },
    {
        match lookup {
            Lookup::Blob(content) => Ok(content),
            Lookup::Failed(message) => Err(WikiError::Io(message)),
            Lookup::NotAFile => {
                let mut message = path.to_owned();
                message.append(" at ");
                message.append(rev);
                message.append(" is not a file");
                Err(WikiError::Io(message))
            },
        }
    }
}

/// `n`, but at most `limit`.
pub open spec fn within(limit: nat, n: nat) -> nat {
    if n <= limit {
        n
    } else {
        limit
    }
}

impl Checkpoint {
    /// This is the commit, under the summary that it has or a stand-in.
    pub open spec fn shows(self, info: CommitInfo) -> bool {
        &&& self.oid@ == info.oid@
        &&& self.summary@ == match info.summary {
            Some(s) => s@,
            None => "(no summary)"@,
        }
        &&& self.time == info.time
    }
}

/// Committing twice without a change in between commits once: after a commit
/// of `tree` there is nothing to commit in it.
pub proof fn law_a_clean_tree_is_not_committed(tree: String, oid: String, index_empty: bool)
    ensures
        !worth_a_commit(tree@, HeadState::At { oid, tree: Ok(tree) }, index_empty),
{
}

/// A change is committed whenever there is one, deletions included: whatever
/// makes the tree differ from that of `HEAD`.
pub proof fn law_every_change_is_committed(
    before: String,
    after: Seq<char>,
    oid: String,
    index_empty: bool,
)
    requires
        before@ != after,
    ensures
        worth_a_commit(after, HeadState::At { oid, tree: Ok(before) }, index_empty),
{
}

} // verus!
