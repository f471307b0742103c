//! Answers and the chunks they were composed from.
use vstd::prelude::*;

use uuid::Uuid;

use crate::error::ErrorKind;

verus! {

/// A composed answer with the ids of the chunks used as its context.
pub struct Unswer {
    pub id: Uuid,
    pub text: String,
    pub context_chunks_id: Vec<Uuid>,
}

impl Unswer {
    /// A new answer with a fresh id.
    pub fn new(text: String, context: Vec<Uuid>) -> (r: Self)
        ensures
            r.text@ == text@,
            r.context_chunks_id@ == context@,
    {
        Unswer { id: Uuid::new_v4(), text, context_chunks_id: context }
    }
}

/// The answer-composition service: composes an answer to `question` from the
/// context texts.
pub trait LLM {
    fn formulate_unswer(&self, question: String, context: Vec<String>) -> Result<
        String,
        ErrorKind,
    >;
}

} // verus!
