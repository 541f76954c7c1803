//! Pages of the wiki: where they stand, how long they are kept, and what can
//! go wrong with them.

use crate::paths::at;
use crate::text::{chars_of, lemma_spans, same_text, spans, spans_of};
use vstd::prelude::*;
use vstd::string::{StrSliceExecFns, StringExecFns};

verus! {

/// How long a page is meant to last.
#[derive(Debug, Clone, Copy, PartialEq, Eq, Structural)]
pub enum Tier {
    Working,
    Episodic,
    Semantic,
    Procedural,
}

/// An error of the domain.
#[derive(Debug)]
pub enum MemoryError {
    /// This text is not the path of a page.
    InvalidPagePath(String),
}

/// An error of the wiki.
#[derive(Debug)]
pub enum WikiError {
    /// Reading or writing failed, with this message.
    Io(String),
}

impl MemoryError {
    /// The error in words.
    pub fn message(&self) -> (r: String)
        ensures
            r@ == (match *self {
                MemoryError::InvalidPagePath(text) => "invalid page path: "@ + text@,
            }),
    {
        match self {
            MemoryError::InvalidPagePath(text) => {
                let mut r = "invalid page path: ".to_owned();
                r.append(text.as_str());
                r
            },
        }
    }
}

/// A text is the path of a page: it is relative, and it never leads upwards.
pub open spec fn valid_page(s: Seq<char>) -> bool {
    &&& s.len() > 0
    &&& s[0] != '/'
    &&& forall|i: int| 0 <= i < spans(s, '/').len() ==> at(s, #[trigger] spans(s, '/')[i]) != ".."@
}

/// The path of a page, relative to the root of the wiki.
#[derive(Debug)]
pub struct PagePath {
    text: String,
}

impl View for PagePath {
    type V = Seq<char>;

    closed spec fn view(&self) -> Seq<char> {
        self.text@
    }
}

impl Clone for PagePath {
    fn clone(&self) -> (r: Self)
        ensures
            r@ == self@,
    {
        proof {
            use_type_invariant(self);
        }
        PagePath { text: self.text.clone() }
    }
}

impl PagePath {
    #[verifier::type_invariant]
    spec fn wf(self) -> bool {
        valid_page(self.text@)
    }

    /// The page at `text`, where it is the path of one.
    pub fn new(text: String) -> (r: Result<PagePath, MemoryError>)
        ensures
            match r {
                Ok(page) => valid_page(text@) && page@ == text@,
                Err(MemoryError::InvalidPagePath(given)) => !valid_page(text@) && given@ == text@,
            },
    {
        let cs: Vec<char> = chars_of(text.as_str());
        if cs.len() == 0 || cs[0] == '/' {
            return Err(MemoryError::InvalidPagePath(text));
        }
        let pieces: Vec<(usize, usize)> = spans_of(&cs, '/');
        proof {
            lemma_spans(cs@, '/');
        }
        let mut i: usize = 0;
        while i < pieces.len()
            invariant
                i <= pieces.len(),
                cs@ == text@,
                pieces.len() == spans(cs@, '/').len(),
                forall|j: int|
                    0 <= j < pieces.len() ==> (#[trigger] pieces@[j]).0 == spans(cs@, '/')[j].0
                        && pieces@[j].1 == spans(cs@, '/')[j].1,
                forall|j: int|
                    0 <= j < spans(cs@, '/').len() ==> 0 <= (#[trigger] spans(cs@, '/')[j]).0
                        <= spans(cs@, '/')[j].1 <= cs@.len(),
                forall|j: int|
                    0 <= j < i ==> at(text@, #[trigger] spans(text@, '/')[j]) != ".."@,
            decreases pieces.len() - i,
        {
            let piece: (usize, usize) = pieces[i];
            assert(spans(cs@, '/')[i as int] == (piece.0 as int, piece.1 as int));
            if same_text(text.as_str().substring_char(piece.0, piece.1), "..") {
                return Err(MemoryError::InvalidPagePath(text));
            }
            i += 1;
        }
        Ok(PagePath { text })
    }

    /// The path as text.
    pub fn as_str(&self) -> (r: &str)
        ensures
            r@ == self@,
            valid_page(r@),
    {
        proof {
            use_type_invariant(self);
        }
        self.text.as_str()
    }
}

} // verus!
