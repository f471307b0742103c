use rag_pipeline::{
    Chunk, ChunkStage, DeleteStage, Document, DocumentService, ErrorKind, QuestionEmbending,
    QuestionService, UnswerService, LLM,
};
use uuid::Uuid;

fn bits(v: &[f64]) -> Vec<u64> {
    v.iter().map(|x| x.to_bits()).collect()
}

#[test]
fn failed_document_save_plans_no_chunks() {
    let service = DocumentService::new(16, 2);
    let doc = service.begin_document("some text".to_string());
    assert!(matches!(
        service.plan_ingest(&doc, Err(ErrorKind::ServiceFailure)),
        Err(ErrorKind::ServiceFailure)
    ));
}

#[test]
fn one_failed_vectorization_fails_ingest_and_keeps_the_others() {
    let service = DocumentService::new(4, 5);
    let doc = service.begin_document("aaabbbcccdddeee".to_string());
    let mut run = match service.plan_ingest(&doc, Ok(())) {
        Ok(r) => r,
        Err(_) => panic!("plan expected"),
    };
    assert_eq!(run.chunks.len(), 5);
    while let Some(i) = run.start_next() {
        assert_eq!(run.chunks[i].doc_id, doc.id);
        run.on_chunk_saved(i, Ok(()));
        if i == 3 {
            run.on_vectorized(i, Err(ErrorKind::ServiceFailure));
        } else {
            run.on_vectorized(i, Ok(bits(&[0.5, i as f64])));
            run.on_embedding_saved(i, Ok(()));
        }
    }
    assert!(run.is_complete());
    assert_eq!(run.outcome(), Err(ErrorKind::ServiceFailure));
    for i in 0..5 {
        if i == 3 {
            assert_eq!(run.stages[i], ChunkStage::Failed(ErrorKind::ServiceFailure));
            assert!(run.embeddings[i].is_none());
        } else {
            assert_eq!(run.stages[i], ChunkStage::Succeeded);
            let emb = run.embeddings[i].as_ref().unwrap();
            assert_eq!(emb.chunk_id, run.chunks[i].id);
            assert_eq!(emb.vec, bits(&[0.5, i as f64]));
        }
    }
}

#[test]
fn successful_ingest_gives_one_embedding_per_chunk() {
    let service = DocumentService::new(8, 2);
    let doc = service.begin_document("first line\nsecond line\nthird".to_string());
    let mut run = match service.plan_ingest(&doc, Ok(())) {
        Ok(r) => r,
        Err(_) => panic!("plan expected"),
    };
    let texts: Vec<String> = run.chunks.iter().map(|c| c.text.clone()).collect();
    assert_eq!(texts, vec!["first l", "ineseco", "nd line", "third"]);
    loop {
        let mut started = Vec::new();
        while let Some(i) = run.start_next() {
            started.push(i);
        }
        assert!(started.len() <= 2);
        if started.is_empty() {
            break;
        }
        for i in started {
            run.on_chunk_saved(i, Ok(()));
            run.on_vectorized(i, Ok(bits(&[1.0])));
            run.on_embedding_saved(i, Ok(()));
        }
    }
    assert_eq!(run.outcome(), Ok(()));
    for i in 0..run.chunks.len() {
        assert_eq!(run.chunks[i].doc_id, doc.id);
        assert_eq!(run.embeddings[i].as_ref().unwrap().chunk_id, run.chunks[i].id);
        assert_eq!(run.stages[i], ChunkStage::Succeeded);
    }
}

#[test]
fn failed_chunk_save_ends_the_task() {
    let service = DocumentService::new(8, 1);
    let doc = service.begin_document("abc".to_string());
    let mut run = match service.plan_ingest(&doc, Ok(())) {
        Ok(r) => r,
        Err(_) => panic!("plan expected"),
    };
    let i = run.start_next().unwrap();
    run.on_chunk_saved(i, Err(ErrorKind::ServiceFailure));
    assert!(run.is_complete());
    assert_eq!(run.outcome(), Err(ErrorKind::ServiceFailure));
}

#[test]
fn update_of_a_missing_document_is_not_found() {
    let service = DocumentService::new(8, 2);
    let r = service.plan_update(Err(ErrorKind::NotFound), Ok(Vec::new()));
    assert!(matches!(r, Err(ErrorKind::NotFound)));
    let doc = Document::new("t".to_string());
    let r = service.plan_update(Ok(doc), Err(ErrorKind::ServiceFailure));
    assert!(matches!(r, Err(ErrorKind::ServiceFailure)));
}

#[test]
fn update_removes_every_old_chunk_and_bumps_the_version() {
    let service = DocumentService::new(8, 2);
    let doc = Document::new("old text".to_string());
    let old = vec![
        Chunk::new(doc.id, "old".to_string()),
        Chunk::new(doc.id, "text".to_string()),
    ];
    let old_ids: Vec<Uuid> = old.iter().map(|c| c.id).collect();
    let mut run = match service.plan_update(Ok(doc.clone()), Ok(old)) {
        Ok(r) => r,
        Err(_) => panic!("plan expected"),
    };
    assert_eq!(run.chunk_ids, old_ids);
    while let Some(i) = run.start_next() {
        run.on_chunk_deleted(i, Ok(()));
        run.on_embedding_deleted(i, Ok(()));
    }
    assert!(run.is_complete());
    assert_eq!(run.outcome(), Ok(()));
    assert!(run.stages.iter().all(|s| *s == DeleteStage::Succeeded));
    let doc2 = run.finish("new".to_string()).unwrap();
    assert_eq!(doc2.id, doc.id);
    assert_eq!(doc2.version, 2);
    assert_eq!(doc2.text, "new");
    let run = match service.plan_ingest(&doc2, Ok(())) {
        Ok(r) => r,
        Err(_) => panic!("plan expected"),
    };
    assert_eq!(run.chunks.len(), 1);
    assert_eq!(run.chunks[0].text, "new");
    assert_eq!(run.chunks[0].doc_id, doc.id);
    assert!(!old_ids.contains(&run.chunks[0].id));
}

#[test]
fn failed_deletion_fails_the_update() {
    let service = DocumentService::new(8, 1);
    let doc = Document::new("x".to_string());
    let old = vec![Chunk::new(doc.id, "x".to_string()), Chunk::new(doc.id, "y".to_string())];
    let mut run = match service.plan_update(Ok(doc), Ok(old)) {
        Ok(r) => r,
        Err(_) => panic!("plan expected"),
    };
    let i = run.start_next().unwrap();
    assert_eq!(run.start_next(), None);
    run.on_chunk_deleted(i, Ok(()));
    run.on_embedding_deleted(i, Err(ErrorKind::ServiceFailure));
    let j = run.start_next().unwrap();
    run.on_chunk_deleted(j, Err(ErrorKind::NotFound));
    assert!(run.is_complete());
    assert_eq!(run.outcome(), Err(ErrorKind::ServiceFailure));
    assert!(matches!(run.finish("new".to_string()), Err(ErrorKind::ServiceFailure)));
}

#[test]
fn question_branches_join() {
    let service = QuestionService::new();
    let q = service.begin_question("What is Rust?".to_string());
    assert_eq!(q.text, "What is Rust?");
    let emb = service.embed_question(&q, Ok(bits(&[0.1, 0.2]))).unwrap();
    assert_eq!(emb.question_id, q.id);
    assert!(matches!(
        service.embed_question(&q, Err(ErrorKind::ServiceFailure)),
        Err(ErrorKind::ServiceFailure)
    ));
    assert_eq!(service.join_branches(Ok(()), Ok(())), Ok(()));
    assert_eq!(
        service.join_branches(Err(ErrorKind::ServiceFailure), Err(ErrorKind::NotFound)),
        Err(ErrorKind::ServiceFailure)
    );
    assert_eq!(
        service.join_branches(Ok(()), Err(ErrorKind::NotFound)),
        Err(ErrorKind::NotFound)
    );
}

struct FixedComposer(String);

impl LLM for FixedComposer {
    fn formulate_unswer(&self, _question: String, _context: Vec<String>) -> Result<String, ErrorKind> {
        Ok(self.0.clone())
    }
}

#[test]
fn test_get_unswer_happy_path() {
    let question_id = Uuid::new_v4();
    let chunk_id = Uuid::new_v4();
    let response_text = "Rust is a safe and fast language.".to_string();
    let service = UnswerService::new(5);
    let question = QuestionService::new().begin_question("What is Rust?".into());
    let embedding = QuestionEmbending {
        id: Uuid::new_v4(),
        question_id,
        vec: bits(&[0.1, 0.2]),
    };
    let (question, embedding) = service.join_reads(Ok(question), Ok(embedding)).unwrap();
    assert_eq!(embedding.vec, bits(&[0.1, 0.2]));
    let mut run = match service.after_search(question, Ok(vec![chunk_id])) {
        Ok(r) => r,
        Err(_) => panic!("run expected"),
    };
    while let Some((i, id)) = run.next_fetch() {
        assert_eq!(id, chunk_id);
        run.record_fetch(i, Ok("Rust is a programming language.".into()));
    }
    assert!(run.is_complete());
    assert_eq!(run.fetch_outcome(), Ok(()));
    assert_eq!(run.context, vec!["Rust is a programming language.".to_string()]);
    let composer = FixedComposer(response_text.clone());
    let composed = composer.formulate_unswer(run.question.text.clone(), run.context.clone());
    let unswer = match run.compose(composed) {
        Ok(u) => u,
        Err(_) => panic!("answer expected"),
    };
    assert_eq!(unswer.context_chunks_id, vec![chunk_id]);
    let result = service.answer_text(&unswer, Ok(())).unwrap();
    assert_eq!(result, response_text);
}

#[test]
fn answer_cites_search_order_not_fetch_order() {
    let service = UnswerService::new(3);
    let ids = vec![Uuid::new_v4(), Uuid::new_v4(), Uuid::new_v4()];
    let question = QuestionService::new().begin_question("q".into());
    let mut run = match service.after_search(question, Ok(ids.clone())) {
        Ok(r) => r,
        Err(_) => panic!("run expected"),
    };
    let mut started = Vec::new();
    while let Some((i, _)) = run.next_fetch() {
        started.push(i);
    }
    for &i in started.iter().rev() {
        run.record_fetch(i, Ok(format!("text {}", i)));
    }
    assert_eq!(run.context, vec!["text 2", "text 1", "text 0"]);
    let unswer = match run.compose(Ok("a".into())) {
        Ok(u) => u,
        Err(_) => panic!("answer expected"),
    };
    assert_eq!(unswer.context_chunks_id, ids);
}

#[test]
fn a_failed_fetch_or_search_fails_the_answer() {
    let service = UnswerService::new(2);
    let question = QuestionService::new().begin_question("q".into());
    assert!(matches!(
        service.after_search(question, Err(ErrorKind::ServiceFailure)),
        Err(ErrorKind::ServiceFailure)
    ));
    let question = QuestionService::new().begin_question("q".into());
    let mut run = match service.after_search(question, Ok(vec![Uuid::new_v4(), Uuid::new_v4()])) {
        Ok(r) => r,
        Err(_) => panic!("run expected"),
    };
    let (a, _) = run.next_fetch().unwrap();
    let (b, _) = run.next_fetch().unwrap();
    run.record_fetch(a, Ok("x".into()));
    run.record_fetch(b, Err(ErrorKind::NotFound));
    assert_eq!(run.fetch_outcome(), Err(ErrorKind::NotFound));
    assert!(matches!(
        service.join_reads(Err(ErrorKind::NotFound), Err(ErrorKind::ServiceFailure)),
        Err(ErrorKind::NotFound)
    ));
    let unswer = rag_pipeline::Unswer::new("t".into(), vec![]);
    assert_eq!(
        service.answer_text(&unswer, Err(ErrorKind::ServiceFailure)),
        Err(ErrorKind::ServiceFailure)
    );
    assert!(matches!(run.compose(Ok("a".into())), Err(ErrorKind::NotFound)));
    let question = QuestionService::new().begin_question("q".into());
    let run = match service.after_search(question, Ok(vec![])) {
        Ok(r) => r,
        Err(_) => panic!("run expected"),
    };
    assert!(run.is_complete());
    assert!(matches!(run.compose(Err(ErrorKind::ServiceFailure)), Err(ErrorKind::ServiceFailure)));
}

#[test]
fn blank_chunks_are_not_ingested() {
    let service = DocumentService::new(2, 1);
    let doc = service.begin_document("a b".to_string());
    let chunks = service.prepare_document(&doc);
    let texts: Vec<String> = chunks.iter().map(|c| c.text.clone()).collect();
    assert_eq!(texts, vec!["a", " ", "b"]);
    let run = match service.plan_ingest(&doc, Ok(())) {
        Ok(r) => r,
        Err(_) => panic!("plan expected"),
    };
    let texts: Vec<String> = run.chunks.iter().map(|c| c.text.clone()).collect();
    assert_eq!(texts, vec!["a", "b"]);
    assert!(!run.is_complete());
}
