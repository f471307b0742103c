//! Documents and their chunks.
use vstd::prelude::*;

use uuid::Uuid;

verus! {

/// A versioned text.
#[derive(Clone, Debug)]
pub struct Document {
    pub id: Uuid,
    pub version: usize,
    pub text: String,
}

impl Document {
    /// A new document at version 1 with a fresh id.
    pub fn new(text: String) -> (r: Self)
        ensures
            r.version == 1,
            r.text@ == text@,
    {
        Document { id: Uuid::new_v4(), version: 1, text }
    }

    /// Replaces the text and moves to the next version.
    pub fn update(&mut self, new_text: String)
        requires
            old(self).version < usize::MAX,
        ensures
            final(self).id == old(self).id,
            final(self).version == old(self).version + 1,
            final(self).text@ == new_text@,
    {
        self.version = self.version + 1;
        self.text = new_text;
    }
}

/// A bounded fragment of a document's text.
#[derive(Clone, Debug)]
pub struct Chunk {
    pub id: Uuid,
    pub doc_id: Uuid,
    pub text: String,
}

impl Chunk {
    /// A new chunk of document `doc_id` with a fresh id.
    pub fn new(doc_id: Uuid, text: String) -> (r: Self)
        ensures
            r.doc_id == doc_id,
            r.text@ == text@,
    {
        Chunk { id: Uuid::new_v4(), doc_id, text }
    }
}

} // verus!
