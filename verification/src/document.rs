//! Open documents.
//!
//! A document is a source text plus an ownership mode.  Client-owned
//! documents belong to the editor, which sends edits for them; the server
//! stores the current snapshot after each edit.  Server-owned documents were
//! loaded from disk and are replaced wholesale on reload.  A closed document
//! converts to server-owned rather than disappearing, because other modules
//! may still import the underlying file.

use vstd::prelude::*;

verus! {

pub enum OpenDocument {
    /// Owned by the editor; the text is the latest edited snapshot.
    ClientOwned(String),
    /// Owned by the server; read from disk, replaced as a whole.
    ServerOwned(String),
}

impl OpenDocument {
    /// The document's current text.
    pub open spec fn text(&self) -> Seq<char> {
        match self {
            OpenDocument::ClientOwned(s) => s@,
            OpenDocument::ServerOwned(s) => s@,
        }
    }

    /// A copy of the document's current text.
    pub fn source(&self) -> (r: String)
        ensures
            r@ == self.text(),
    {
        match self {
            OpenDocument::ClientOwned(s) => s.clone(),
            OpenDocument::ServerOwned(s) => s.clone(),
        }
    }
}

} // verus!
