//! The yank/paste register: a single optional text, read and written
//! whole. Only its access contract matters to the editor core.

use vstd::prelude::*;

verus! {

/// The clipboard register. Empty until the first yank.
pub struct Clipboard {
    content: Option<String>,
}

impl View for Clipboard {
    type V = Option<Seq<char>>;

    closed spec fn view(&self) -> Option<Seq<char>> {
        match self.content {
            Some(s) => Some(s@),
            None => None,
        }
    }
}

impl Clipboard {
    /// The empty register.
    pub fn new() -> (c: Clipboard)
        ensures
            c@ is None,
    {
        Clipboard { content: None }
    }

    /// The register's current content, if any.
    pub fn get(&self) -> (r: Option<String>)
        ensures
            match r {
                Some(s) => self@ == Some(s@),
                None => self@ is None,
            },
    {
        match &self.content {
            Some(s) => Some(s.clone()),
            None => None,
        }
    }

    /// Overwrites the register.
    pub fn set(&mut self, t: String)
        ensures
            final(self)@ == Some(t@),
    {
        self.content = Some(t);
    }
}

} // verus!
