//! The fan-outs of ingestion and update, as runs that hold every task's stage
//! together with the pool that schedules the tasks.
//!
//! Ingesting a chunk saves the chunk, then vectorizes its text, then saves the
//! embedding; removing a chunk deletes the chunk, then its embedding. Each
//! step runs only after the previous one succeeded; when a task ends, its own
//! outcome is recorded in its pool slot.
use vstd::prelude::*;

use crate::document::{Chunk, Document};
use crate::embedding::ChunkEmbending;
use crate::error::ErrorKind;
use crate::pool::{finished_as, pool_wf, TaskPool, TaskStatus};
use uuid::Uuid;

verus! {

/// Where the ingestion of one chunk stands.
#[derive(Clone, Copy, Debug, PartialEq, Eq, Structural)]
pub enum ChunkStage {
    SavingChunk,
    Vectorizing,
    SavingEmbedding,
    Succeeded,
    Failed(ErrorKind),
}

/// Where the removal of one chunk stands.
#[derive(Clone, Copy, Debug, PartialEq, Eq, Structural)]
pub enum DeleteStage {
    DeletingChunk,
    DeletingEmbedding,
    Succeeded,
    Failed(ErrorKind),
}

/// The stage that a pool slot in state `st` allows for a chunk task.
pub open spec fn chunk_stage_fits(st: TaskStatus, s: ChunkStage) -> bool {
    match st {
        TaskStatus::Pending => s == ChunkStage::SavingChunk,
        TaskStatus::Running => s == ChunkStage::SavingChunk || s == ChunkStage::Vectorizing || s
            == ChunkStage::SavingEmbedding,
        TaskStatus::Succeeded => s == ChunkStage::Succeeded,
        TaskStatus::Failed => s is Failed,
    }
}

/// The stage that a pool slot in state `st` allows for a removal task.
pub open spec fn delete_stage_fits(st: TaskStatus, s: DeleteStage) -> bool {
    match st {
        TaskStatus::Pending => s == DeleteStage::DeletingChunk,
        TaskStatus::Running => s == DeleteStage::DeletingChunk || s
            == DeleteStage::DeletingEmbedding,
        TaskStatus::Succeeded => s == DeleteStage::Succeeded,
        TaskStatus::Failed => s is Failed,
    }
}

/// The ingestion fan-out of one document's chunks.
pub struct IngestRun {
    pub document_id: Uuid,
    pub chunks: Vec<Chunk>,
    pub stages: Vec<ChunkStage>,
    pub embeddings: Vec<Option<ChunkEmbending>>,
    pub pool: TaskPool,
}

impl IngestRun {
    /// Task `i`'s chunk belongs to the document, its stage agrees with its
    /// pool slot, and once vectorized it holds one embedding of its chunk.
    pub open spec fn slot_ok(&self, i: int) -> bool {
        &&& self.chunks@[i].doc_id == self.document_id
        &&& chunk_stage_fits(self.pool@.status[i], self.stages@[i])
        &&& (self.stages@[i] == ChunkStage::SavingEmbedding || self.stages@[i]
            == ChunkStage::Succeeded) ==> (self.embeddings@[i] is Some
            && self.embeddings@[i]->Some_0.chunk_id == self.chunks@[i].id)
    }

    pub open spec fn wf(&self) -> bool {
        &&& self.pool.inv()
        &&& self.pool@.status.len() == self.chunks@.len()
        &&& self.stages@.len() == self.chunks@.len()
        &&& self.embeddings@.len() == self.chunks@.len()
        &&& forall|i: int| 0 <= i < self.chunks@.len() ==> #[trigger] self.slot_ok(i)
    }

    /// The next task to run, if the pool allows one more.
    pub fn start_next(&mut self) -> (r: Option<usize>)
        requires
            old(self).wf(),
        ensures
            final(self).wf(),
            final(self).document_id == old(self).document_id,
            final(self).chunks@ == old(self).chunks@,
            final(self).stages@ == old(self).stages@,
            final(self).embeddings@ == old(self).embeddings@,
            r is Some <==> old(self).pool@.started < old(self).pool@.status.len()
                && old(self).pool@.in_flight() < old(self).pool@.capacity,
            r is Some ==> r->Some_0 == old(self).pool@.started && final(self).pool@.status == old(
                self,
            ).pool@.status.update(r->Some_0 as int, TaskStatus::Running)
                && final(self).pool@.started == old(self).pool@.started + 1
                && final(self).pool@.capacity == old(self).pool@.capacity
                && final(self).pool@.failure == old(self).pool@.failure,
            r is None ==> final(self).pool@ == old(self).pool@,
    {
        proof {
            pool_wf(&self.pool);
        }
        let r = self.pool.start();
        proof {
            assert forall|i: int| 0 <= i < self.chunks@.len() implies #[trigger] self.slot_ok(i) by {
                assert(old(self).slot_ok(i));
            }
        }
        r
    }

    /// Ends task `i` with `outcome` in stage `stage`.
    fn end_task(&mut self, i: usize, stage: ChunkStage, outcome: Result<(), ErrorKind>)
        requires
            old(self).wf(),
            i < old(self).chunks@.len(),
            old(self).pool@.status[i as int] == TaskStatus::Running,
            outcome is Ok ==> stage == ChunkStage::Succeeded && old(self).embeddings@[i as int] is Some
                && old(self).embeddings@[i as int]->Some_0.chunk_id == old(self).chunks@[i as int].id,
            outcome is Err ==> stage == ChunkStage::Failed(outcome->Err_0),
        ensures
            final(self).wf(),
            final(self).document_id == old(self).document_id,
            final(self).chunks@ == old(self).chunks@,
            final(self).embeddings@ == old(self).embeddings@,
            final(self).stages@ == old(self).stages@.update(i as int, stage),
            finished_as(old(self).pool@, final(self).pool@, i as int, outcome),
    {
        self.stages.set(i, stage);
        self.pool.finish(i, outcome);
        proof {
            assert forall|j: int| 0 <= j < self.chunks@.len() implies #[trigger] self.slot_ok(j) by {
                assert(old(self).slot_ok(j));
            }
        }
    }

    /// Task `i`'s chunk was saved, or saving it failed.
    pub fn on_chunk_saved(&mut self, i: usize, saved: Result<(), ErrorKind>)
        requires
            old(self).wf(),
            i < old(self).chunks@.len(),
            old(self).pool@.status[i as int] == TaskStatus::Running,
            old(self).stages@[i as int] == ChunkStage::SavingChunk,
        ensures
            final(self).wf(),
            final(self).document_id == old(self).document_id,
            final(self).chunks@ == old(self).chunks@,
            final(self).embeddings@ == old(self).embeddings@,
            match saved {
                Ok(_) => final(self).stages@ == old(self).stages@.update(
                    i as int,
                    ChunkStage::Vectorizing,
                ) && final(self).pool@ == old(self).pool@,
                Err(e) => final(self).stages@ == old(self).stages@.update(
                    i as int,
                    ChunkStage::Failed(e),
                ) && finished_as(old(self).pool@, final(self).pool@, i as int, saved),
            },
    {
        match saved {
            Ok(_) => {
                self.stages.set(i, ChunkStage::Vectorizing);
                proof {
                    assert forall|j: int| 0 <= j < self.chunks@.len() implies #[trigger] self.slot_ok(
                        j,
                    ) by {
                        assert(old(self).slot_ok(j));
                    }
                }
            },
            Err(e) => self.end_task(i, ChunkStage::Failed(e), Err(e)),
        }
    }

    /// The vectorizer answered for task `i`'s chunk text: its embedding is
    /// built, or the task fails.
    pub fn on_vectorized(&mut self, i: usize, vectorized: Result<Vec<u64>, ErrorKind>)
        requires
            old(self).wf(),
            i < old(self).chunks@.len(),
            old(self).pool@.status[i as int] == TaskStatus::Running,
            old(self).stages@[i as int] == ChunkStage::Vectorizing,
        ensures
            final(self).wf(),
            final(self).document_id == old(self).document_id,
            final(self).chunks@ == old(self).chunks@,
            match vectorized {
                Ok(v) => final(self).stages@ == old(self).stages@.update(
                    i as int,
                    ChunkStage::SavingEmbedding,
                ) && final(self).pool@ == old(self).pool@ && final(self).embeddings@.len()
                    == old(self).embeddings@.len() && (forall|j: int|
                    0 <= j < old(self).embeddings@.len() && j != i ==> final(self).embeddings@[j]
                        == old(self).embeddings@[j]) && final(self).embeddings@[i as int] is Some
                    && final(self).embeddings@[i as int]->Some_0.chunk_id == old(
                    self,
                ).chunks@[i as int].id && final(self).embeddings@[i as int]->Some_0.vec@ == v@,
                Err(e) => final(self).stages@ == old(self).stages@.update(
                    i as int,
                    ChunkStage::Failed(e),
                ) && final(self).embeddings@ == old(self).embeddings@ && finished_as(
                    old(self).pool@,
                    final(self).pool@,
                    i as int,
                    Err(e),
                ),
            },
    {
        match ChunkEmbending::new(&self.chunks[i], vectorized) {
            Ok(emb) => {
                self.embeddings.set(i, Some(emb));
                self.stages.set(i, ChunkStage::SavingEmbedding);
                proof {
                    assert forall|j: int| 0 <= j < self.chunks@.len() implies #[trigger] self.slot_ok(
                        j,
                    ) by {
                        assert(old(self).slot_ok(j));
                    }
                }
            },
            Err(e) => self.end_task(i, ChunkStage::Failed(e), Err(e)),
        }
    }

    /// Task `i`'s embedding was saved, or saving it failed; either way the
    /// task ends.
    pub fn on_embedding_saved(&mut self, i: usize, saved: Result<(), ErrorKind>)
        requires
            old(self).wf(),
            i < old(self).chunks@.len(),
            old(self).pool@.status[i as int] == TaskStatus::Running,
            old(self).stages@[i as int] == ChunkStage::SavingEmbedding,
        ensures
            final(self).wf(),
            final(self).document_id == old(self).document_id,
            final(self).chunks@ == old(self).chunks@,
            final(self).embeddings@ == old(self).embeddings@,
            final(self).stages@ == old(self).stages@.update(
                i as int,
                match saved {
                    Ok(_) => ChunkStage::Succeeded,
                    Err(e) => ChunkStage::Failed(e),
                },
            ),
            finished_as(old(self).pool@, final(self).pool@, i as int, saved),
    {
        proof {
            assert(old(self).slot_ok(i as int));
        }
        match saved {
            Ok(_) => self.end_task(i, ChunkStage::Succeeded, Ok(())),
            Err(e) => self.end_task(i, ChunkStage::Failed(e), Err(e)),
        }
    }

    /// Whether every task has ended.
    pub fn is_complete(&self) -> (r: bool)
        requires
            self.wf(),
        ensures
            r == self.pool@.complete(),
    {
        self.pool.is_complete()
    }

    /// The joined result: the first failure recorded, or success.
    pub fn outcome(&self) -> (r: Result<(), ErrorKind>)
        ensures
            r == self.pool.outcome_spec(),
    {
        self.pool.outcome()
    }
}

/// When a complete ingestion joins to success, every chunk was saved with
/// exactly one embedding, which belongs to it, and every chunk belongs to the
/// document.
pub proof fn ingest_law(run: &IngestRun)
    requires
        run.wf(),
        run.pool@.complete(),
        run.pool.outcome_spec() is Ok,
    ensures
        forall|i: int|
            0 <= i < run.chunks@.len() ==> {
                &&& (#[trigger] run.stages@[i]) == ChunkStage::Succeeded
                &&& run.embeddings@[i] is Some
                &&& run.embeddings@[i]->Some_0.chunk_id == run.chunks@[i].id
                &&& run.chunks@[i].doc_id == run.document_id
            },
{
    crate::pool::join_success_law(&run.pool);
    assert forall|i: int| 0 <= i < run.chunks@.len() implies #[trigger] run.stages@[i]
        == ChunkStage::Succeeded by {
        assert(run.slot_ok(i));
        assert(run.pool@.status[i] == TaskStatus::Succeeded);
    }
    assert forall|i: int| 0 <= i < run.chunks@.len() implies run.embeddings@[i] is Some && run.embeddings@[i]->Some_0.chunk_id == run.chunks@[i].id
        && run.chunks@[i].doc_id == run.document_id by {
        assert(run.slot_ok(i));
        assert(run.stages@[i] == ChunkStage::Succeeded);
    }
}

/// In every state of an ingestion, a task that failed makes the joined result
/// a failure, and every task that succeeded keeps the one embedding of its
/// chunk: nothing is rolled back.
pub proof fn ingest_failure_law(run: &IngestRun, i: int)
    requires
        run.wf(),
        0 <= i < run.chunks@.len(),
        run.stages@[i] is Failed,
    ensures
        run.pool.outcome_spec() is Err,
        forall|j: int|
            0 <= j < run.chunks@.len() && #[trigger] run.stages@[j] == ChunkStage::Succeeded
                ==> run.embeddings@[j] is Some && run.embeddings@[j]->Some_0.chunk_id
                == run.chunks@[j].id,
{
    pool_wf(&run.pool);
    assert(run.slot_ok(i));
    assert(run.pool@.status[i] == TaskStatus::Failed);
    assert forall|j: int|
        0 <= j < run.chunks@.len() && #[trigger] run.stages@[j] == ChunkStage::Succeeded implies run.embeddings@[j] is Some
            && run.embeddings@[j]->Some_0.chunk_id == run.chunks@[j].id by {
        assert(run.slot_ok(j));
    }
}

/// The removal fan-out of a document's old chunks, ahead of its new text.
pub struct UpdateRun {
    pub document: Document,
    pub chunk_ids: Vec<Uuid>,
    pub stages: Vec<DeleteStage>,
    pub pool: TaskPool,
}

impl UpdateRun {
    pub open spec fn slot_ok(&self, i: int) -> bool {
        delete_stage_fits(self.pool@.status[i], self.stages@[i])
    }

    pub open spec fn wf(&self) -> bool {
        &&& self.pool.inv()
        &&& self.pool@.status.len() == self.chunk_ids@.len()
        &&& self.stages@.len() == self.chunk_ids@.len()
        &&& forall|i: int| 0 <= i < self.chunk_ids@.len() ==> #[trigger] self.slot_ok(i)
    }

    /// The next task to run, if the pool allows one more.
    pub fn start_next(&mut self) -> (r: Option<usize>)
        requires
            old(self).wf(),
        ensures
            final(self).wf(),
            final(self).document == old(self).document,
            final(self).chunk_ids@ == old(self).chunk_ids@,
            final(self).stages@ == old(self).stages@,
            r is Some <==> old(self).pool@.started < old(self).pool@.status.len()
                && old(self).pool@.in_flight() < old(self).pool@.capacity,
            r is Some ==> r->Some_0 == old(self).pool@.started && final(self).pool@.status == old(
                self,
            ).pool@.status.update(r->Some_0 as int, TaskStatus::Running)
                && final(self).pool@.started == old(self).pool@.started + 1
                && final(self).pool@.capacity == old(self).pool@.capacity
                && final(self).pool@.failure == old(self).pool@.failure,
            r is None ==> final(self).pool@ == old(self).pool@,
    {
        proof {
            pool_wf(&self.pool);
        }
        let r = self.pool.start();
        proof {
            assert forall|i: int| 0 <= i < self.chunk_ids@.len() implies #[trigger] self.slot_ok(i) by {
                assert(old(self).slot_ok(i));
            }
        }
        r
    }

    /// Task `i`'s chunk was deleted, or deleting it failed.
    pub fn on_chunk_deleted(&mut self, i: usize, deleted: Result<(), ErrorKind>)
        requires
            old(self).wf(),
            i < old(self).chunk_ids@.len(),
            old(self).pool@.status[i as int] == TaskStatus::Running,
            old(self).stages@[i as int] == DeleteStage::DeletingChunk,
        ensures
            final(self).wf(),
            final(self).document == old(self).document,
            final(self).chunk_ids@ == old(self).chunk_ids@,
            match deleted {
                Ok(_) => final(self).stages@ == old(self).stages@.update(
                    i as int,
                    DeleteStage::DeletingEmbedding,
                ) && final(self).pool@ == old(self).pool@,
                Err(e) => final(self).stages@ == old(self).stages@.update(
                    i as int,
                    DeleteStage::Failed(e),
                ) && finished_as(old(self).pool@, final(self).pool@, i as int, deleted),
            },
    {
        match deleted {
            Ok(_) => self.stages.set(i, DeleteStage::DeletingEmbedding),
            Err(e) => {
                self.stages.set(i, DeleteStage::Failed(e));
                self.pool.finish(i, Err(e));
            },
        }
        proof {
            assert forall|j: int| 0 <= j < self.chunk_ids@.len() implies #[trigger] self.slot_ok(j) by {
                assert(old(self).slot_ok(j));
            }
        }
    }

    /// Task `i`'s embedding was deleted, or deleting it failed; either way
    /// the task ends.
    pub fn on_embedding_deleted(&mut self, i: usize, deleted: Result<(), ErrorKind>)
        requires
            old(self).wf(),
            i < old(self).chunk_ids@.len(),
            old(self).pool@.status[i as int] == TaskStatus::Running,
            old(self).stages@[i as int] == DeleteStage::DeletingEmbedding,
        ensures
            final(self).wf(),
            final(self).document == old(self).document,
            final(self).chunk_ids@ == old(self).chunk_ids@,
            final(self).stages@ == old(self).stages@.update(
                i as int,
                match deleted {
                    Ok(_) => DeleteStage::Succeeded,
                    Err(e) => DeleteStage::Failed(e),
                },
            ),
            finished_as(old(self).pool@, final(self).pool@, i as int, deleted),
    {
        match deleted {
            Ok(_) => self.stages.set(i, DeleteStage::Succeeded),
            Err(e) => self.stages.set(i, DeleteStage::Failed(e)),
        }
        self.pool.finish(i, deleted);
        proof {
            assert forall|j: int| 0 <= j < self.chunk_ids@.len() implies #[trigger] self.slot_ok(j) by {
                assert(old(self).slot_ok(j));
            }
        }
    }

    /// Whether every task has ended.
    pub fn is_complete(&self) -> (r: bool)
        requires
            self.wf(),
        ensures
            r == self.pool@.complete(),
    {
        self.pool.is_complete()
    }

    /// The joined result: the first failure recorded, or success.
    pub fn outcome(&self) -> (r: Result<(), ErrorKind>)
        ensures
            r == self.pool.outcome_spec(),
    {
        self.pool.outcome()
    }

    /// Once every removal has ended: the first failure, or the document at
    /// its next version with the new text, to be persisted and re-ingested.
    pub fn finish(self, new_text: String) -> (r: Result<Document, ErrorKind>)
        requires
            self.wf(),
            self.pool@.complete(),
            self.pool.outcome_spec() is Ok ==> self.document.version < usize::MAX,
        ensures
            self.pool.outcome_spec() is Err ==> r == Err::<Document, ErrorKind>(
                self.pool.outcome_spec()->Err_0,
            ),
            self.pool.outcome_spec() is Ok ==> r is Ok && r->Ok_0.id == self.document.id
                && r->Ok_0.version == self.document.version + 1 && r->Ok_0.text@ == new_text@,
    {
        match self.pool.outcome() {
            Err(e) => Err(e),
            Ok(_) => {
                let mut document = self.document;
                document.update(new_text);
                Ok(document)
            },
        }
    }
}

/// When a complete removal fan-out joins to success, both the chunk and the
/// embedding of every old chunk id were deleted.
pub proof fn update_law(run: &UpdateRun)
    requires
        run.wf(),
        run.pool@.complete(),
        run.pool.outcome_spec() is Ok,
    ensures
        forall|i: int|
            0 <= i < run.chunk_ids@.len() ==> #[trigger] run.stages@[i] == DeleteStage::Succeeded,
{
    crate::pool::join_success_law(&run.pool);
    assert forall|i: int| 0 <= i < run.chunk_ids@.len() implies #[trigger] run.stages@[i]
        == DeleteStage::Succeeded by {
        assert(run.slot_ok(i));
        assert(run.pool@.status[i] == TaskStatus::Succeeded);
    }
}

} // verus!
