//! Questions.
use vstd::prelude::*;

use uuid::Uuid;

verus! {

/// A question asked of the pipeline.
pub struct Question {
    pub id: Uuid,
    pub text: String,
}

impl Question {
    /// A new question with a fresh id.
    pub fn new(text: String) -> (r: Self)
        ensures
            r.text@ == text@,
    {
        Question { id: Uuid::new_v4(), text }
    }
}

} // verus!
