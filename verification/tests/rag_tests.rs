use helios_engine::json::{JsonNumber, JsonValue};
use helios_engine::rag::{
    points_count, preview, qdrant_added_text, qdrant_request, qdrant_results_text, rag_added_text, rag_count_text,
    rag_deleted_text, rag_request, rag_results_text, DocumentStore, RagHit, RagRequest,
};

fn s(x: &str) -> JsonValue {
    JsonValue::String(x.to_string())
}

fn obj(pairs: Vec<(&str, JsonValue)>) -> JsonValue {
    JsonValue::Object(pairs.into_iter().map(|(k, v)| (k.to_string(), v)).collect())
}

#[test]
fn test_delete_nonexistent_document() {
    let mut store: DocumentStore<Vec<f32>> = DocumentStore::new();
    store.delete("nonexistent-id");
    assert_eq!(store.count(), 0);
}

#[test]
fn test_multiple_deletes_same_document() {
    let mut store = DocumentStore::new();
    store.add("doc-1", "Test document", vec![0.1f32; 4]);
    store.delete("doc-1");
    assert_eq!(store.count(), 0);
    store.delete("doc-1");
    assert_eq!(store.count(), 0);
}

#[test]
fn test_clear_empty_store() {
    let mut store: DocumentStore<Vec<f32>> = DocumentStore::new();
    store.clear();
    assert_eq!(store.count(), 0);
}

#[test]
fn test_multiple_clears() {
    let mut store = DocumentStore::new();
    store.add("1", "Doc 1", ());
    store.add("2", "Doc 2", ());
    store.clear();
    assert_eq!(store.count(), 0);
    store.clear();
    assert_eq!(store.count(), 0);
}

#[test]
fn test_replicate_same_id_behavior() {
    let mut store = DocumentStore::new();
    let embedding = vec![0.1f32; 128];
    store.add("test-id", "First text", embedding.clone());
    assert_eq!(store.count(), 1);
    store.add("test-id", "Second text", embedding.clone());
    assert_eq!(store.count(), 1);
    assert_eq!(store.docs[0].text, "Second text");
}

#[test]
fn replaced_document_moves_last() {
    let mut store = DocumentStore::new();
    store.add("a", "A", 1);
    store.add("b", "B", 2);
    store.add("a", "A2", 3);
    let ids: Vec<&str> = store.docs.iter().map(|d| d.id.as_str()).collect();
    assert_eq!(ids, vec!["b", "a"]);
    assert_eq!(store.docs[1].payload, 3);
}

#[test]
fn rag_request_reading() {
    match rag_request(&obj(vec![("operation", s("search")), ("text", s("q"))])).unwrap() {
        RagRequest::Search { query, limit } => {
            assert_eq!(query, "q");
            assert_eq!(limit, 5);
        },
        _ => panic!("expected a search"),
    }
    match rag_request(&obj(vec![
        ("operation", s("search")),
        ("text", s("q")),
        ("limit", JsonValue::Number(JsonNumber::PosInt(2))),
    ]))
    .unwrap()
    {
        RagRequest::Search { limit, .. } => assert_eq!(limit, 2),
        _ => panic!("expected a search"),
    }
    match rag_request(&obj(vec![("operation", s("add_document")), ("text", s("t")), ("metadata", obj(vec![]))])).unwrap() {
        RagRequest::AddDocument { text, with_metadata } => {
            assert_eq!(text, "t");
            assert!(with_metadata);
        },
        _ => panic!("expected an addition"),
    }
    let e = rag_request(&obj(vec![("operation", s("nope"))])).unwrap_err();
    assert_eq!(e.message(), "Tool error: Unknown operation 'nope'. Valid: add_document, search, delete, clear, count");
    let e = rag_request(&obj(vec![("operation", s("delete"))])).unwrap_err();
    assert_eq!(e.message(), "Tool error: Missing 'doc_id' for delete");
}

#[test]
fn rag_texts() {
    assert_eq!(
        rag_added_text("in-memory", "id1", "short").unwrap(),
        "\u{2713} Document added successfully (backend: in-memory)\nID: id1\nText preview: short"
    );
    let long = "x".repeat(150);
    let added = rag_added_text("qdrant", "id2", &long).unwrap();
    assert!(added.ends_with(&format!("Text preview: {}...", "x".repeat(100))));
    let cut_in_char = format!("{}é", "x".repeat(99));
    let cut_in_char = format!("{}{}", cut_in_char, "y".repeat(10));
    assert_eq!(preview(&cut_in_char, 100), None);
    assert_eq!(rag_deleted_text("id1"), "\u{2713} Document 'id1' deleted");
    assert_eq!(rag_count_text(3, "in-memory"), "Document count: 3 (backend: in-memory)");
    assert_eq!(rag_results_text(&vec![]).unwrap(), "No matching documents found");
    let hits = vec![
        RagHit { id: "a".to_string(), score: "0.9000".to_string(), text: "first".to_string() },
        RagHit { id: "b".to_string(), score: "0.5000".to_string(), text: "second".to_string() },
    ];
    assert_eq!(
        rag_results_text(&hits).unwrap(),
        "Found 2 result(s):\n\n1. [Score: 0.9000] first\n   ID: a\n\n2. [Score: 0.5000] second\n   ID: b"
    );
}

#[test]
fn qdrant_request_has_no_count() {
    match qdrant_request(&obj(vec![("operation", s("count"))])) {
        Err(e) => assert_eq!(e.message(), "Tool error: Unknown operation 'count'. Valid: add_document, search, delete, clear"),
        Ok(r) => panic!("expected an error, got {:?}", r),
    }
    match qdrant_request(&obj(vec![("operation", s("search")), ("text", s("rust"))])) {
        Ok(RagRequest::Search { query, limit }) => {
            assert_eq!(query, "rust");
            assert_eq!(limit, 5);
        },
        other => panic!("expected a search, got {:?}", other),
    }
    match qdrant_request(&obj(vec![("operation", s("delete"))])) {
        Err(e) => assert_eq!(e.message(), "Tool error: Missing 'doc_id' for delete"),
        Ok(r) => panic!("expected an error, got {:?}", r),
    }
    assert!(matches!(qdrant_request(&obj(vec![("operation", s("clear"))])), Ok(RagRequest::Clear)));
}

#[test]
fn qdrant_texts() {
    assert_eq!(
        qdrant_added_text("id-1", "short text").unwrap(),
        "\u{2713} Document added successfully\nID: id-1\nText preview: short text"
    );
    let long = "a".repeat(120);
    assert_eq!(
        qdrant_added_text("id-2", &long).unwrap(),
        format!("\u{2713} Document added successfully\nID: id-2\nText preview: {}", "a".repeat(100))
    );
    let cut_inside = format!("{}é", "a".repeat(99));
    assert!(qdrant_added_text("id-3", &cut_inside).is_none());

    assert_eq!(qdrant_results_text(&vec![]).unwrap(), "No matching documents found");
    let hits = vec![
        RagHit { id: "a".to_string(), score: "0.9000".to_string(), text: "first".to_string() },
        RagHit { id: "b".to_string(), score: "0.5000".to_string(), text: "second".to_string() },
    ];
    assert_eq!(
        qdrant_results_text(&hits).unwrap(),
        "Found 2 result(s):\n\n1. [Score: 0.9000] first\n   ID: a\n\n2. [Score: 0.5000] second\n   ID: b\n"
    );
}

#[test]
fn collection_point_count() {
    let info = obj(vec![("result", obj(vec![("points_count", JsonValue::Number(JsonNumber::PosInt(42)))]))]);
    assert_eq!(points_count(&info), 42);
    assert_eq!(points_count(&obj(vec![("result", obj(vec![]))])), 0);
    assert_eq!(points_count(&obj(vec![])), 0);
}
