//! The decision steps of the ingestion, update, question and answer flows.
//!
//! Each flow alternates calls to outside services with decisions. The calls
//! are made by the caller, which hands each result back to a step here; the
//! steps decide what happens next and what is persisted.
use vstd::prelude::*;

use uuid::Uuid;

use crate::chunker::{
    chunk_texts, is_blank_str, kept_chunk_texts, not_blank, split_into_chunks,
};
use crate::document::{Chunk, Document};
use crate::embedding::{ChunkEmbending, QuestionEmbending};
use crate::error::ErrorKind;
use crate::pool::{finished_as, PoolState, TaskPool, TaskStatus};
use crate::question::Question;
use crate::task::{ChunkStage, DeleteStage, IngestRun, UpdateRun};
use crate::unswer::Unswer;

verus! {

/// The first failure of two results, taken in the order given.
pub open spec fn first_failure(a: Result<(), ErrorKind>, b: Result<(), ErrorKind>) -> Result<
    (),
    ErrorKind,
> {
    match a {
        Err(e) => Err(e),
        Ok(_) => b,
    }
}

/// True when `run` is a fresh ingestion of the non-blank chunks of
/// `document` under `limit`, in order, with a pool of `capacity` slots.
pub open spec fn fresh_ingest(run: IngestRun, document: Document, limit: nat, capacity: nat) -> bool {
    &&& run.wf()
    &&& run.document_id == document.id
    &&& run.chunks@.len() == kept_chunk_texts(document.text@, limit).len()
    &&& forall|i: int|
        0 <= i < run.chunks@.len() ==> {
            &&& (#[trigger] run.chunks@[i]).doc_id == document.id
            &&& run.chunks@[i].text@ == kept_chunk_texts(document.text@, limit)[i]
            &&& run.stages@[i] == ChunkStage::SavingChunk
            &&& run.embeddings@[i] is None
        }
    &&& fresh_pool(run.pool@, capacity, run.chunks@.len())
}

/// True when `p` is a fresh pool for `n` tasks under `capacity`.
pub open spec fn fresh_pool(p: PoolState, capacity: nat, n: nat) -> bool {
    &&& p.capacity == capacity
    &&& p.status == Seq::new(n, |i: int| TaskStatus::Pending)
    &&& p.started == 0
    &&& p.failure is None
}

/// Chunking, ingestion and update of documents.
pub struct DocumentService {
    pub max_chunk_size: usize,
    pub capacity: usize,
}

impl DocumentService {
    /// A service that cuts chunks under `max_chunk_size` bytes and runs at
    /// most `capacity` outside calls at once.
    pub fn new(max_chunk_size: usize, capacity: usize) -> (r: Self)
        requires
            max_chunk_size >= 1,
            capacity >= 1,
        ensures
            r.max_chunk_size == max_chunk_size,
            r.capacity == capacity,
    {
        DocumentService { max_chunk_size, capacity }
    }

    /// The chunks of `document`, in order, each a fresh chunk of it.
    pub fn prepare_document(&self, document: &Document) -> (r: Vec<Chunk>)
        requires
            self.max_chunk_size >= 1,
        ensures
            r@.len() == chunk_texts(document.text@, self.max_chunk_size as nat).len(),
            forall|i: int|
                0 <= i < r@.len() ==> (#[trigger] r@[i]).doc_id == document.id && r@[i].text@
                    == chunk_texts(document.text@, self.max_chunk_size as nat)[i],
    {
        let texts = split_into_chunks(document.text.as_str(), self.max_chunk_size);
        let ghost all = texts@;
        let mut chunks: Vec<Chunk> = Vec::new();
        for t in it: texts.into_iter()
            invariant
                it.seq() == all,
                chunks@.len() == it.index(),
                forall|i: int|
                    0 <= i < chunks@.len() ==> (#[trigger] chunks@[i]).doc_id == document.id
                        && chunks@[i].text@ == all[i]@,
        {
            chunks.push(Chunk::new(document.id.clone(), t));
        }
        chunks
    }

    /// Step one of ingestion: the new document, to be saved.
    pub fn begin_document(&self, text: String) -> (r: Document)
        ensures
            r.version == 1,
            r.text@ == text@,
    {
        Document::new(text)
    }

    /// Ingestion once the document's save answered: nothing more if it failed;
    /// else a run with one task per non-blank chunk.
    pub fn plan_ingest(&self, document: &Document, saved: Result<(), ErrorKind>) -> (r: Result<
        IngestRun,
        ErrorKind,
    >)
        requires
            self.max_chunk_size >= 1,
            self.capacity >= 1,
        ensures
            match saved {
                Err(e) => r is Err && r->Err_0 == e,
                Ok(_) => r is Ok && fresh_ingest(
                    r->Ok_0,
                    *document,
                    self.max_chunk_size as nat,
                    self.capacity as nat,
                ),
            },
    {
        match saved {
            Err(e) => Err(e),
            Ok(_) => {
                let chunks = self.prepare_document(document);
                let ghost texts = chunk_texts(document.text@, self.max_chunk_size as nat);
                let ghost all = chunks@;
                let mut kept: Vec<Chunk> = Vec::new();
                proof {
                    reveal(Seq::filter);
                    assert(texts.subrange(0, 0) =~= Seq::<Seq<char>>::empty());
                }
                for c in it: chunks.into_iter()
                    invariant
                        it.seq() == all,
                        all.len() == texts.len(),
                        forall|i: int|
                            0 <= i < all.len() ==> (#[trigger] all[i]).doc_id == document.id
                                && all[i].text@ == texts[i],
                        kept@.len() == texts.subrange(0, it.index() as int).filter(
                            not_blank(),
                        ).len(),
                        forall|i: int|
                            0 <= i < kept@.len() ==> (#[trigger] kept@[i]).text@ == texts.subrange(
                                0,
                                it.index() as int,
                            ).filter(not_blank())[i] && kept@[i].doc_id == document.id,
                {
                    let ghost k = it.index() as int;
                    proof {
                        reveal(Seq::filter);
                        let pre = texts.subrange(0, k);
                        let next = texts.subrange(0, k + 1);
                        assert(next.drop_last() =~= pre);
                        assert(next.last() == texts[k]);
                        assert(c == all[k]);
                        assert(next.filter(not_blank()) == if not_blank()(texts[k]) {
                            pre.filter(not_blank()).push(texts[k])
                        } else {
                            pre.filter(not_blank())
                        });
                    }
                    let ghost before = kept@;
                    let keep = !is_blank_str(&c.text);
                    if keep {
                        kept.push(c);
                    }
                    proof {
                        let f = texts.subrange(0, k + 1).filter(not_blank());
                        assert forall|i: int| 0 <= i < kept@.len() implies (#[trigger] kept@[i]).text@
                            == f[i] by {
                            if i < before.len() {
                                assert(kept@[i] == before[i]);
                            }
                        }
                    }
                }
                proof {
                    assert(texts.subrange(0, texts.len() as int) =~= texts);
                }
                let n = kept.len();
                let mut stages: Vec<ChunkStage> = Vec::new();
                let mut embeddings: Vec<Option<ChunkEmbending>> = Vec::new();
                let mut k: usize = 0;
                while k < n
                    invariant
                        k <= n,
                        stages@.len() == k,
                        embeddings@.len() == k,
                        forall|i: int| 0 <= i < k ==> #[trigger] stages@[i] == ChunkStage::SavingChunk,
                        forall|i: int| 0 <= i < k ==> #[trigger] embeddings@[i] is None,
                    decreases n - k,
                {
                    stages.push(ChunkStage::SavingChunk);
                    embeddings.push(None);
                    k = k + 1;
                }
                let pool = TaskPool::new(self.capacity, n);
                let run = IngestRun {
                    document_id: document.id.clone(),
                    chunks: kept,
                    stages,
                    embeddings,
                    pool,
                };
                proof {
                    assert forall|i: int| 0 <= i < run.chunks@.len() implies #[trigger] run.slot_ok(
                        i,
                    ) by {
                        assert(run.pool@.status[i] == TaskStatus::Pending);
                    }
                }
                Ok(run)
            },
        }
    }

    /// Update once the document and its chunks were read: the first failed
    /// read ends it; else a run that removes every old chunk.
    pub fn plan_update(
        &self,
        read: Result<Document, ErrorKind>,
        chunks: Result<Vec<Chunk>, ErrorKind>,
    ) -> (r: Result<UpdateRun, ErrorKind>)
        requires
            self.capacity >= 1,
        ensures
            read is Err ==> r is Err && r->Err_0 == read->Err_0,
            read is Ok && chunks is Err ==> r is Err && r->Err_0 == chunks->Err_0,
            read is Ok && chunks is Ok ==> r is Ok && r->Ok_0.wf() && r->Ok_0.document == read->Ok_0
                && r->Ok_0.chunk_ids@.len() == chunks->Ok_0@.len() && (forall|i: int|
                0 <= i < r->Ok_0.chunk_ids@.len() ==> (#[trigger] r->Ok_0.chunk_ids@[i])
                    == chunks->Ok_0@[i].id && r->Ok_0.stages@[i] == DeleteStage::DeletingChunk)
                && fresh_pool(r->Ok_0.pool@, self.capacity as nat, chunks->Ok_0@.len()),
    {
        let document = match read {
            Err(e) => {
                return Err(e);
            },
            Ok(d) => d,
        };
        let old_chunks = match chunks {
            Err(e) => {
                return Err(e);
            },
            Ok(cs) => cs,
        };
        let n = old_chunks.len();
        let mut chunk_ids: Vec<Uuid> = Vec::new();
        let mut stages: Vec<DeleteStage> = Vec::new();
        let mut k: usize = 0;
        while k < n
            invariant
                n == old_chunks@.len(),
                k <= n,
                chunk_ids@.len() == k,
                stages@.len() == k,
                forall|i: int| 0 <= i < k ==> (#[trigger] chunk_ids@[i]) == old_chunks@[i].id,
                forall|i: int| 0 <= i < k ==> #[trigger] stages@[i] == DeleteStage::DeletingChunk,
            decreases n - k,
        {
            let ghost before_ids = chunk_ids@;
            let ghost before_stages = stages@;
            chunk_ids.push(old_chunks[k].id.clone());
            stages.push(DeleteStage::DeletingChunk);
            proof {
                assert forall|i: int| 0 <= i < k + 1 implies (#[trigger] chunk_ids@[i])
                    == old_chunks@[i].id by {
                    if i < k {
                        assert(chunk_ids@[i] == before_ids[i]);
                    }
                }
                assert forall|i: int| 0 <= i < k + 1 implies #[trigger] stages@[i]
                    == DeleteStage::DeletingChunk by {
                    if i < k {
                        assert(stages@[i] == before_stages[i]);
                    }
                }
            }
            k = k + 1;
        }
        let pool = TaskPool::new(self.capacity, n);
        let run = UpdateRun { document, chunk_ids, stages, pool };
        proof {
            assert forall|i: int| 0 <= i < run.chunk_ids@.len() implies #[trigger] run.slot_ok(i) by {
                assert(run.pool@.status[i] == TaskStatus::Pending);
            }
        }
        Ok(run)
    }
}

/// Submission of questions: the question is saved while its embedding is
/// computed and saved.
pub struct QuestionService {}

impl QuestionService {
    pub fn new() -> (r: Self) {
        QuestionService {  }
    }

    /// Step one: the new question, to be saved and vectorized.
    pub fn begin_question(&self, text: String) -> (r: Question)
        ensures
            r.text@ == text@,
    {
        Question::new(text)
    }

    /// The embedding of `question` from what the vectorizer returned.
    pub fn embed_question(&self, question: &Question, vectorized: Result<Vec<u64>, ErrorKind>) -> (r:
        Result<QuestionEmbending, ErrorKind>)
        ensures
            match vectorized {
                Ok(v) => r is Ok && r->Ok_0.question_id == question.id && r->Ok_0.vec@ == v@,
                Err(e) => r == Err::<QuestionEmbending, ErrorKind>(e),
            },
    {
        QuestionEmbending::new(question, vectorized)
    }

    /// The joined result of the two branches: success only when both
    /// succeeded, else the save's failure first.
    pub fn join_branches(
        &self,
        saved: Result<(), ErrorKind>,
        embedded: Result<(), ErrorKind>,
    ) -> (r: Result<(), ErrorKind>)
        ensures
            r == first_failure(saved, embedded),
            r is Ok <==> saved is Ok && embedded is Ok,
    {
        match saved {
            Err(e) => Err(e),
            Ok(_) => embedded,
        }
    }
}

/// Answering of questions from retrieved context.
pub struct UnswerService {
    pub capacity: usize,
}

/// An answer in progress: the question, the chunk ids that the search
/// returned, the pool that fetches their texts, and the texts fetched so far.
pub struct AnswerRun {
    pub question: Question,
    pub chunk_ids: Vec<Uuid>,
    pub pool: TaskPool,
    pub context: Vec<String>,
}

impl AnswerRun {
    pub open spec fn wf(&self) -> bool {
        &&& self.pool.inv()
        &&& self.pool@.status.len() == self.chunk_ids@.len()
    }

    /// Hands out the next chunk to fetch, if the pool allows one more.
    pub fn next_fetch(&mut self) -> (r: Option<(usize, Uuid)>)
        requires
            old(self).wf(),
        ensures
            final(self).wf(),
            final(self).question == old(self).question,
            final(self).chunk_ids == old(self).chunk_ids,
            final(self).context == old(self).context,
            r is Some <==> old(self).pool@.started < old(self).pool@.status.len()
                && old(self).pool@.in_flight() < old(self).pool@.capacity,
            r is Some ==> r->Some_0.0 == old(self).pool@.started && r->Some_0.1 == old(
                self,
            ).chunk_ids@[old(self).pool@.started as int] && final(self).pool@.status == old(
                self,
            ).pool@.status.update(old(self).pool@.started as int, TaskStatus::Running)
                && final(self).pool@.started == old(self).pool@.started + 1,
            final(self).pool@.capacity == old(self).pool@.capacity,
            final(self).pool@.failure == old(self).pool@.failure,
            r is None ==> final(self).pool@ == old(self).pool@,
    {
        match self.pool.start() {
            Some(i) => Some((i, self.chunk_ids[i].clone())),
            None => None,
        }
    }

    /// Records the fetch of running task `index`: its text joins the context,
    /// or its failure is recorded; the pool moves as `TaskPool::finish` does.
    pub fn record_fetch(&mut self, index: usize, fetched: Result<String, ErrorKind>)
        requires
            old(self).wf(),
            index < old(self).pool@.status.len(),
            old(self).pool@.status[index as int] == TaskStatus::Running,
        ensures
            final(self).wf(),
            final(self).question == old(self).question,
            final(self).chunk_ids == old(self).chunk_ids,
            finished_as(
                old(self).pool@,
                final(self).pool@,
                index as int,
                match fetched {
                    Ok(_) => Ok(()),
                    Err(e) => Err(e),
                },
            ),
            match fetched {
                Ok(t) => final(self).context@ == old(self).context@.push(t),
                Err(_) => final(self).context@ == old(self).context@,
            },
    {
        match fetched {
            Ok(t) => {
                self.pool.finish(index, Ok(()));
                self.context.push(t);
            },
            Err(e) => {
                self.pool.finish(index, Err(e));
            },
        }
    }

    /// Whether every fetch has ended.
    pub fn is_complete(&self) -> (r: bool)
        requires
            self.wf(),
        ensures
            r == self.pool@.complete(),
    {
        self.pool.is_complete()
    }

    /// The joined result of the fetches.
    pub fn fetch_outcome(&self) -> (r: Result<(), ErrorKind>)
        ensures
            r == self.pool.outcome_spec(),
    {
        self.pool.outcome()
    }

    /// The answer from what the generator composed; it cites the chunk ids
    /// that the search returned, in the search's order, whatever order the
    /// fetches completed in. A failed fetch fails the answer first.
    pub fn compose(self, composed: Result<String, ErrorKind>) -> (r: Result<Unswer, ErrorKind>)
        requires
            self.wf(),
            self.pool@.complete(),
        ensures
            self.pool.outcome_spec() is Err ==> r == Err::<Unswer, ErrorKind>(
                self.pool.outcome_spec()->Err_0,
            ),
            self.pool.outcome_spec() is Ok ==> match composed {
                Ok(t) => r is Ok && r->Ok_0.text@ == t@ && r->Ok_0.context_chunks_id@
                    == self.chunk_ids@,
                Err(e) => r == Err::<Unswer, ErrorKind>(e),
            },
    {
        match self.pool.outcome() {
            Err(e) => Err(e),
            Ok(_) => match composed {
                Ok(t) => Ok(Unswer::new(t, self.chunk_ids)),
                Err(e) => Err(e),
            },
        }
    }
}

impl UnswerService {
    /// A service that fetches at most `capacity` chunks at once.
    pub fn new(capacity: usize) -> (r: Self)
        requires
            capacity >= 1,
        ensures
            r.capacity == capacity,
    {
        UnswerService { capacity }
    }

    /// The question and its embedding once both reads answered; the
    /// question's failure first.
    pub fn join_reads(
        &self,
        question: Result<Question, ErrorKind>,
        embedding: Result<QuestionEmbending, ErrorKind>,
    ) -> (r: Result<(Question, QuestionEmbending), ErrorKind>)
        ensures
            question is Err ==> r == Err::<(Question, QuestionEmbending), ErrorKind>(
                question->Err_0,
            ),
            question is Ok && embedding is Err ==> r == Err::<
                (Question, QuestionEmbending),
                ErrorKind,
            >(embedding->Err_0),
            question is Ok && embedding is Ok ==> r is Ok && r->Ok_0.0 == question->Ok_0
                && r->Ok_0.1 == embedding->Ok_0,
    {
        match question {
            Err(e) => Err(e),
            Ok(q) => match embedding {
                Err(e) => Err(e),
                Ok(emb) => Ok((q, emb)),
            },
        }
    }

    /// The run that fetches the context once the search answered.
    pub fn after_search(&self, question: Question, searched: Result<Vec<Uuid>, ErrorKind>) -> (r:
        Result<AnswerRun, ErrorKind>)
        requires
            self.capacity >= 1,
        ensures
            match searched {
                Err(e) => r is Err && r->Err_0 == e,
                Ok(ids) => r is Ok && r->Ok_0.wf() && r->Ok_0.question == question
                    && r->Ok_0.chunk_ids@ == ids@ && r->Ok_0.context@.len() == 0 && fresh_pool(
                    r->Ok_0.pool@,
                    self.capacity as nat,
                    ids@.len(),
                ),
            },
    {
        match searched {
            Err(e) => Err(e),
            Ok(ids) => {
                let pool = TaskPool::new(self.capacity, ids.len());
                Ok(AnswerRun { question, chunk_ids: ids, pool, context: Vec::new() })
            },
        }
    }

    /// The text returned to the caller once the answer's save answered.
    pub fn answer_text(&self, unswer: &Unswer, saved: Result<(), ErrorKind>) -> (r: Result<
        String,
        ErrorKind,
    >)
        ensures
            match saved {
                Ok(_) => r is Ok && r->Ok_0@ == unswer.text@,
                Err(e) => r == Err::<String, ErrorKind>(e),
            },
    {
        match saved {
            Ok(_) => Ok(unswer.text.clone()),
            Err(e) => Err(e),
        }
    }
}

} // verus!
