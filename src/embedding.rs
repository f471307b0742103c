//! Embeddings of chunks and questions.
//!
//! A vector's components are held as the IEEE-754 bit patterns of their
//! `f64` values: the pipeline carries vectors and never computes on them.
use vstd::prelude::*;

use uuid::Uuid;

use crate::document::Chunk;
use crate::error::ErrorKind;
use crate::question::Question;

verus! {

/// The embedding of one chunk.
#[derive(Clone, Debug)]
pub struct ChunkEmbending {
    pub id: Uuid,
    pub chunk_id: Uuid,
    pub vec: Vec<u64>,
}

impl ChunkEmbending {
    /// The embedding of `chunk` from what the vectorizer returned for its
    /// text; a failure of the vectorizer is passed on.
    pub fn new(chunk: &Chunk, vectorized: Result<Vec<u64>, ErrorKind>) -> (r: Result<
        ChunkEmbending,
        ErrorKind,
    >)
        ensures
            match vectorized {
                Ok(v) => r is Ok && r->Ok_0.chunk_id == chunk.id && r->Ok_0.vec@ == v@,
                Err(e) => r == Err::<ChunkEmbending, ErrorKind>(e),
            },
    {
        match vectorized {
            Ok(vec) => Ok(ChunkEmbending { id: Uuid::new_v4(), chunk_id: chunk.id.clone(), vec }),
            Err(e) => Err(e),
        }
    }
}

/// The embedding of one question.
pub struct QuestionEmbending {
    pub id: Uuid,
    pub question_id: Uuid,
    pub vec: Vec<u64>,
}

impl QuestionEmbending {
    /// The embedding of `question` from what the vectorizer returned for its
    /// text; a failure of the vectorizer is passed on.
    pub fn new(question: &Question, vectorized: Result<Vec<u64>, ErrorKind>) -> (r: Result<
        QuestionEmbending,
        ErrorKind,
    >)
        ensures
            match vectorized {
                Ok(v) => r is Ok && r->Ok_0.question_id == question.id && r->Ok_0.vec@ == v@,
                Err(e) => r == Err::<QuestionEmbending, ErrorKind>(e),
            },
    {
        match vectorized {
            Ok(vec) => Ok(
                QuestionEmbending { id: Uuid::new_v4(), question_id: question.id.clone(), vec },
            ),
            Err(e) => Err(e),
        }
    }
}

} // verus!
