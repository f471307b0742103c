use rag_pipeline::{Document, DocumentService};

#[test]
fn test_document_updating() {
    let text = "hello";
    let check_text = "non hello";
    let mut document = Document::new(text.to_string());

    document.update(check_text.to_string());
    assert_eq!(document.text, check_text.to_string());
    assert_eq!(document.version, 2);
}

#[test]
fn test_prepare_document() {
    let text = "
        Мороз и солнце; день чудесный!
        Еще ты дремлешь, друг прелестный —
        Пора, красавица, проснись:
        Открой сомкнуты негой взоры
        Навстречу северной Авроры,
        Звездою севера явись!

        Вечор, ты помнишь, вьюга злилась,
        На мутном небе мгла носилась;
        Луна, как бледное пятно,
        Сквозь тучи мрачные желтела,
        И ты печальная сидела —
        А нынче… погляди в окно:";

    let document = Document::new(text.to_string());
    let service = DocumentService::new(128, 5);
    let chunks = service.prepare_document(&document);

    assert!(!chunks.is_empty(), "Chunks should not be empty");

    for chunk in &chunks {
        assert_eq!(chunk.doc_id, document.id);
        assert!(!chunk.text.is_empty(), "Chunk text should not be empty");
        assert!(
            chunk.text.len() <= 128,
            "Chunk size should not exceed limit"
        );
    }
}

#[test]
fn new_document_starts_at_version_one_with_fresh_id() {
    let a = Document::new("x".to_string());
    let b = Document::new("x".to_string());
    assert_eq!(a.version, 1);
    assert_eq!(a.text, "x");
    assert_ne!(a.id, b.id);
}

#[test]
fn update_keeps_id() {
    let mut d = Document::new("old".to_string());
    let id = d.id;
    d.update("new".to_string());
    d.update("newer".to_string());
    assert_eq!(d.id, id);
    assert_eq!(d.version, 3);
    assert_eq!(d.text, "newer");
}

#[test]
fn poem_gives_several_bounded_chunks() {
    let stanza = "Мороз и солнце; день чудесный!\n  Еще ты дремлешь, друг прелестный —\nПора, красавица, проснись:\n";
    let text = format!("{}\n{}", stanza, stanza);
    assert!(text.len() >= 200);
    let document = Document::new(text.clone());
    let service = DocumentService::new(128, 5);
    let chunks = service.prepare_document(&document);
    assert!(chunks.len() >= 2);
    let mut joined = String::new();
    for chunk in &chunks {
        assert!(!chunk.text.trim().is_empty());
        assert!(chunk.text.len() < 128);
        joined.push_str(&chunk.text);
    }
    let expected: String = text.split('\n').map(|l| l.trim()).collect();
    assert_eq!(joined, expected);
}
