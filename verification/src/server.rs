//! The server's state: documents, name bindings, module cache, composer.
//!
//! One state value owns everything for the process lifetime.  Validation
//! requests are handled to completion one at a time, so no locking guards
//! these fields; they are mutated only through the methods here and in the
//! validation pipeline.

use vstd::prelude::*;

verus! {

use naga::Module;
use naga_oil::compose::Composer;

use crate::assoc::AssocMap;
use crate::compose::composed_names;
use crate::compose::composer_new;
use crate::compose::span_indices_dense;
use crate::document::OpenDocument;
use crate::validate::CachedModule;

pub struct WgslServerState {
    /// Open documents, either owned by the client or the server.
    pub open_documents: AssocMap<OpenDocument>,
    /// Module names and paths, each bound to the location that provides it.
    /// At most one location provides a given name at a time.
    pub module_lookup: AssocMap<String>,
    /// Cache of structurally successful builds, keyed by location.
    pub cached_modules: AssocMap<CachedModule>,
    /// The shader compiler's running multi-module state.
    pub composer: Composer,
    /// Whether to validate newly opened or changed documents.  False until
    /// the first request, so that the initial workspace load does not
    /// validate every file as it arrives.
    pub should_validate: bool,
}

impl WgslServerState {
    /// The coupled invariants of the state: each map has distinct keys,
    /// every name binding points at an open document, and the composer's
    /// span bookkeeping is intact.
    pub open spec fn wf(&self) -> bool {
        &&& self.open_documents.wf()
        &&& self.module_lookup.wf()
        &&& self.cached_modules.wf()
        &&& forall|n: Seq<char>|
            #[trigger] self.module_lookup@.contains_key(n)
                ==> self.open_documents@.contains_key(self.module_lookup@[n]@)
        &&& span_indices_dense(self.composer)
    }

    pub fn new() -> (r: WgslServerState)
        ensures
            r.wf(),
            r.open_documents@ == Map::<Seq<char>, OpenDocument>::empty(),
            r.module_lookup@ == Map::<Seq<char>, String>::empty(),
            r.cached_modules@ == Map::<Seq<char>, CachedModule>::empty(),
            composed_names(r.composer) == Set::<Seq<char>>::empty(),
            !r.should_validate,
    {
        WgslServerState {
            open_documents: AssocMap::new(),
            module_lookup: AssocMap::new(),
            cached_modules: AssocMap::new(),
            composer: composer_new(),
            should_validate: false,
        }
    }

    /// Record a document the client owns, replacing any prior text for the
    /// location.  The text is the client's current snapshot; the caller
    /// applies the editor's incremental edits before handing it over.
    pub fn open_client_document(&mut self, uri: String, text: String)
        requires
            old(self).wf(),
        ensures
            final(self).wf(),
            final(self).open_documents@ == old(self).open_documents@.insert(
                uri@,
                OpenDocument::ClientOwned(text),
            ),
            final(self).module_lookup == old(self).module_lookup,
            final(self).cached_modules == old(self).cached_modules,
            final(self).composer == old(self).composer,
            final(self).should_validate == old(self).should_validate,
    {
        self.open_documents.insert(uri, OpenDocument::ClientOwned(text));
    }

    /// Record a document the server owns (loaded from disk), replacing any
    /// prior text for the location.  A closed client document is re-opened
    /// through here, so the file stays available to its importers.
    pub fn open_server_document(&mut self, uri: String, text: String)
        requires
            old(self).wf(),
        ensures
            final(self).wf(),
            final(self).open_documents@ == old(self).open_documents@.insert(
                uri@,
                OpenDocument::ServerOwned(text),
            ),
            final(self).module_lookup == old(self).module_lookup,
            final(self).cached_modules == old(self).cached_modules,
            final(self).composer == old(self).composer,
            final(self).should_validate == old(self).should_validate,
    {
        self.open_documents.insert(uri, OpenDocument::ServerOwned(text));
    }

    /// True when the location has an open document.
    pub fn has_document(&self, uri: &String) -> (r: bool)
        requires
            self.wf(),
        ensures
            r == self.open_documents@.contains_key(uri@),
    {
        self.open_documents.contains_key(uri)
    }

    /// The cached module for a location, for secondary consumers such as
    /// semantic-token extraction: the compiled module, the name it was
    /// registered under, and the exact text it was compiled from — not the
    /// live text, since compiled spans are only valid against that
    /// snapshot.
    pub fn get_cached_module(&self, uri: &String) -> (r: Option<(&Module, &String, String)>)
        requires
            self.wf(),
        ensures
            (r is Some) == self.cached_modules@.contains_key(uri@),
            r matches Some(t) ==> *t.0 == self.cached_modules@[uri@].module && *t.1
                == self.cached_modules@[uri@].module_name && t.2
                == self.cached_modules@[uri@].source,
    {
        match self.cached_modules.get(uri) {
            Some(entry) => Some((&entry.module, &entry.module_name, entry.source.clone())),
            None => None,
        }
    }
}

} // verus!
