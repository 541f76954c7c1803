//! Identifiers of the things that memory is kept about.

use vstd::prelude::*;

verus! {

/// Identifies a workspace: the 128 bits of its UUID.
#[derive(Debug, Clone, Copy, PartialEq, Eq, Structural, Hash)]
pub struct WorkspaceId(pub u128);

/// Identifies a project within a workspace: the 128 bits of its UUID.
#[derive(Debug, Clone, Copy, PartialEq, Eq, Structural, Hash)]
pub struct ProjectId(pub u128);

/// Identifies a version of a page: the 128 bits of its UUID.
#[derive(Debug, Clone, Copy, PartialEq, Eq, Structural, Hash)]
pub struct PageId(pub u128);

/// Identifies one run of an agent, by the text that it is written as.
#[derive(Debug)]
pub struct SessionId {
    pub text: String,
}

impl Clone for SessionId {
    fn clone(&self) -> (r: Self)
        ensures
            r == *self,
    {
        SessionId { text: self.text.clone() }
    }
}

} // verus!
