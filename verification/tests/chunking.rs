use emiko::rag::{entry_action, Document, EntryAction, RAG};

fn chunks_of(texts: &[&str]) -> Vec<String> {
    let mut rag = RAG::new(Some("/home/u".to_string()), None, '/').unwrap();
    let batch: Vec<Document> = texts
        .iter()
        .enumerate()
        .map(|(i, t)| Document::from_file(format!("/data/{}.txt", i), t.to_string()))
        .collect();
    rag.loader(vec![batch]);
    rag.chunk(512)
}

#[test]
fn new_rag_uses_the_datasets_directory_of_home() {
    let rag = RAG::new(Some("/home/u".to_string()), Some("/other".to_string()), '/').unwrap();
    assert_eq!(rag.dataset_path(), "/home/u/.config/emiko/datasets");
    let rag = RAG::new(None, Some("C:/Users/u".to_string()), '/').unwrap();
    assert_eq!(rag.dataset_path(), "C:/Users/u/.config/emiko/datasets");
}

#[test]
fn new_rag_needs_a_home_directory() {
    assert!(RAG::new(None, None, '/').is_none());
}

#[test]
fn new_rag_is_empty_with_default_embedding_service() {
    let rag = RAG::new(Some("/home/u".to_string()), None, '/').unwrap();
    assert_eq!(rag.dataset_path(), "/home/u/.config/emiko/datasets");
    assert!(rag.documents().is_empty());
    assert!(rag.chunks().is_empty());
}

#[test]
fn chunks_are_characters_without_spaces_and_newlines() {
    let chunks = chunks_of(&["Hello world\nfoo"]);
    let expected: Vec<String> = "Helloworldfoo".chars().map(|c| c.to_string()).collect();
    assert_eq!(chunks, expected);
}

#[test]
fn chunks_keep_punctuation_and_tabs() {
    let chunks = chunks_of(&["a! b?\tc. d\n\ne"]);
    let expected: Vec<String> = "a!b?\tc.de".chars().map(|c| c.to_string()).collect();
    assert_eq!(chunks, expected);
}

#[test]
fn chunks_follow_document_order() {
    let chunks = chunks_of(&["ab", " ", "c d"]);
    assert_eq!(chunks, vec!["a", "b", "c", "d"]);
}

#[test]
fn chunks_of_empty_document_are_empty() {
    assert!(chunks_of(&["", "\n\n  \n"]).is_empty());
}

#[test]
fn chunking_again_replaces_chunks() {
    let mut rag = RAG::new(Some("/home/u".to_string()), None, '/').unwrap();
    rag.loader(vec![vec![Document::from_file("x".to_string(), "xy".to_string())]]);
    let first = rag.chunk(1);
    let second = rag.chunk(1);
    assert_eq!(first, second);
    assert_eq!(rag.chunks().len(), 2);
}

#[test]
fn non_ascii_text_is_chunked_by_character() {
    assert_eq!(chunks_of(&["héé 🌑"]), vec!["h", "é", "é", "🌑"]);
}

#[test]
fn loader_appends_batches_in_order() {
    let mut rag = RAG::new(Some("/home/u".to_string()), None, '/').unwrap();
    rag.set_dataset_path("/data".to_string());
    let first = rag.loader(vec![vec![Document::from_file("a".to_string(), "A".to_string())]]);
    assert_eq!(first.len(), 1);
    let all = rag.loader(vec![
        vec![Document::from_file("b".to_string(), "B".to_string())],
        vec![],
        vec![
            Document::from_file("c".to_string(), "C".to_string()),
            Document::from_file("d".to_string(), "D".to_string()),
        ],
    ]);
    let texts: Vec<&str> = all.iter().map(|d| d.page_content()).collect();
    assert_eq!(texts, vec!["A", "B", "C", "D"]);
    assert_eq!(rag.documents().len(), 4);
    assert_eq!(rag.dataset_path(), "/data");
}

#[test]
fn file_document_records_its_path() {
    let d = Document::from_file("/data/notes.txt".to_string(), "text".to_string());
    assert_eq!(d.page_content(), "text");
    assert_eq!(d.metadata_value("filename"), Some("/data/notes.txt".to_string()));
    assert_eq!(d.metadata_value("other"), None);
    let copy = d.duplicate();
    assert_eq!(copy.page_content(), "text");
    let cloned = d.clone();
    assert_eq!(cloned.metadata_value("filename"), Some("/data/notes.txt".to_string()));
}

#[test]
fn entries_are_read_descended_or_skipped() {
    assert_eq!(entry_action(true, false, false), EntryAction::ReadFile);
    assert_eq!(entry_action(false, true, true), EntryAction::LoadDirectory);
    assert_eq!(entry_action(false, true, false), EntryAction::Skip);
    assert_eq!(entry_action(false, false, true), EntryAction::Skip);
}
