//! Core of a retrieval-augmented answering pipeline: text chunking, the
//! bounded task pool, and the decision steps of the ingestion, update,
//! question and answer flows.

pub mod chunker;
pub mod document;
pub mod embedding;
pub mod error;
pub mod ids;
pub mod pool;
pub mod question;
pub mod service;
pub mod task;
pub mod text;
pub mod unswer;

pub use document::{Chunk, Document};
pub use embedding::{ChunkEmbending, QuestionEmbending};
pub use error::ErrorKind;
pub use question::Question;
pub use unswer::{Unswer, LLM};
pub use pool::{TaskPool, TaskStatus};
pub use service::{AnswerRun, DocumentService, QuestionService, UnswerService};
pub use task::{ChunkStage, DeleteStage, IngestRun, UpdateRun};
