//! The words for the host agent: the one whose settings file is written out in
//! full, and whose name stands in the reports. They are given by the caller.

use vstd::prelude::*;

verus! {

/// How the host agent and its files are called.
#[derive(Debug)]
pub struct HostAgent {
    /// The name, as a title.
    pub name: String,
    /// The name, as it stands in a sentence.
    pub spoken: String,
    /// Its directory among those of the hook scripts.
    pub dir: String,
    /// Its settings file.
    pub settings: String,
    /// Its file of project rules.
    pub rules_file: String,
}

} // verus!
