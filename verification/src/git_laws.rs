//! What holds of the wiki's history.

use crate::git::{unchanged, within, worth_a_commit, Checkpoint, CommitInfo, HeadState};
use crate::git::{COMMIT_AUTHOR_EMAIL, COMMIT_AUTHOR_NAME};
use vstd::prelude::*;

verus! {

/// What is worth a commit: what differs from the tree at `HEAD`, whatever it is;
/// where there is no commit yet, anything at all but nothing; and where `HEAD`
/// leads to no tree that can be read, always.
pub proof fn law_what_is_worth_a_commit(
    tree: Seq<char>,
    oid: String,
    at_head: String,
    message: String,
    index_empty: bool,
)
    ensures
        worth_a_commit(tree, HeadState::At { oid, tree: Ok(at_head) }, index_empty) <==> at_head@
            != tree,
        worth_a_commit(tree, HeadState::At { oid, tree: Err(message) }, index_empty),
        worth_a_commit(tree, HeadState::NoTarget, index_empty),
        worth_a_commit(tree, HeadState::Unborn, index_empty) <==> !index_empty,
{
}

/// Nothing counts as unchanged but the very tree at `HEAD`.
pub proof fn law_what_counts_as_unchanged(tree: Seq<char>, head: HeadState, index_empty: bool)
    ensures
        unchanged(tree, head) ==> !worth_a_commit(tree, head, index_empty),
        unchanged(tree, head) ==> head is At && head->tree is Ok && head->tree->Ok_0@ == tree,
{
}

/// Every commit is the system's own: the maintainer's name and address do not
/// stand in the history.
pub proof fn law_who_commits()
    ensures
        COMMIT_AUTHOR_NAME@ == "ai-memory"@,
        COMMIT_AUTHOR_EMAIL@ == "ai-memory@local"@,
{
}

/// No more commits are shown than were asked for, and no fewer than there are
/// where as many were asked for.
pub proof fn law_no_more_than_asked_for(limit: nat, n: nat)
    ensures
        within(limit, n) <= limit,
        within(limit, n) <= n,
        n >= limit ==> within(limit, n) == limit,
        n <= limit ==> within(limit, n) == n,
{
}

/// A commit is shown under its own OID and time, with its summary or the words
/// that stand in for one.
pub proof fn law_a_commit_is_shown_as_it_is(shown: Checkpoint, info: CommitInfo)
    requires
        shown.shows(info),
    ensures
        shown.oid@ == info.oid@,
        shown.time == info.time,
        info.summary matches Some(s) ==> shown.summary@ == s@,
        info.summary is None ==> shown.summary@ == "(no summary)"@,
{
}

} // verus!
