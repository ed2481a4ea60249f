use krypton_rag::engine::RagSystem;
use krypton_rag::engine::SearchMode;

fn e3(x: i64, y: i64, z: i64) -> Vec<i64> {
    vec![x, y, z]
}

fn vector_engine() -> RagSystem {
    RagSystem::new(SearchMode::Vector, 3, None)
}

fn lexical_engine() -> RagSystem {
    RagSystem::new(SearchMode::Lexical, 3, None)
}

#[test]
fn exact_match_ranks_first() {
    let mut rag = vector_engine();
    let _a = rag
        .add_document("alpha doc".to_string(), None, Some(e3(1000, 0, 0)))
        .unwrap();
    let b = rag
        .add_document("bravo doc".to_string(), None, Some(e3(0, 1000, 0)))
        .unwrap();
    let _c = rag
        .add_document("charlie doc".to_string(), None, Some(e3(0, 0, 1000)))
        .unwrap();

    let hits = rag.search("bravo doc", Some(e3(0, 1000, 0)), 3, 0).unwrap();
    assert_eq!(hits.len(), 3);
    assert_eq!(hits[0].id, b);
    assert_eq!(hits[0].content, "bravo doc");
    assert_eq!(hits[0].score, 1_000_000);
    for h in &hits {
        assert!(h.score <= 1_000_000);
    }
    for w in hits.windows(2) {
        assert!(w[0].score >= w[1].score);
    }
}

#[test]
fn search_caps_at_limit() {
    let mut rag = vector_engine();
    for i in 0..5 {
        rag.add_document(format!("doc {}", i), None, Some(e3(i, 1, 0)))
            .unwrap();
    }
    let hits = rag.search("q", Some(e3(1000, 0, 0)), 2, 0).unwrap();
    assert_eq!(hits.len(), 2);
    assert_eq!(hits[0].content, "doc 4");
    assert_eq!(hits[1].content, "doc 3");
}

#[test]
fn vector_search_without_embedding_is_provider_error() {
    let mut rag = vector_engine();
    rag.add_document("something".to_string(), None, Some(e3(1, 2, 3)))
        .unwrap();
    let err = rag.search("something", None, 3, 0).unwrap_err();
    assert_eq!(err, krypton_rag::errors::RagError::Provider);
}

#[test]
fn update_is_reflected_by_search() {
    let mut rag = vector_engine();
    let id = rag
        .add_document("old words".to_string(), None, Some(e3(1000, 0, 0)))
        .unwrap();
    rag.update_document(&id, "new words".to_string(), None, Some(e3(1000, 0, 0)))
        .unwrap();
    let hits = rag.search("q", Some(e3(1000, 0, 0)), 3, 0).unwrap();
    assert_eq!(hits.len(), 1);
    assert_eq!(hits[0].id, id);
    assert_eq!(hits[0].content, "new words");
}

#[test]
fn update_missing_id_is_not_found() {
    let mut rag = vector_engine();
    let err = rag
        .update_document("no-such-id", "text".to_string(), None, Some(e3(1, 0, 0)))
        .unwrap_err();
    assert_eq!(err, krypton_rag::errors::RagError::NotFound);
}

#[test]
fn delete_then_list_never_shows_the_id() {
    let mut rag = lexical_engine();
    let a = rag.add_document("first".to_string(), None, None).unwrap();
    let b = rag.add_document("second".to_string(), None, None).unwrap();
    rag.delete_document(&a).unwrap();
    let (page, total) = rag.list_documents(10, 0);
    assert_eq!(total, 1);
    assert_eq!(page.len(), 1);
    assert_eq!(page[0].id, b);
    assert!(page.iter().all(|s| s.id != a));
    // deleting an already-deleted id is a no-op, not an error
    rag.delete_document(&a).unwrap();
    let (_, total2) = rag.list_documents(10, 0);
    assert_eq!(total2, 1);
}

#[test]
fn listing_is_newest_first_and_paginated() {
    let mut rag = lexical_engine();
    for i in 0..5 {
        rag.add_document(format!("doc {}", i), None, None).unwrap();
    }
    let (page, total) = rag.list_documents(2, 0);
    assert_eq!(total, 5);
    assert_eq!(page[0].content, "doc 4");
    assert_eq!(page[1].content, "doc 3");
    let (page2, _) = rag.list_documents(2, 4);
    assert_eq!(page2.len(), 1);
    assert_eq!(page2[0].content, "doc 0");
    let (page3, _) = rag.list_documents(2, 10);
    assert_eq!(page3.len(), 0);
}

#[test]
fn cached_results_survive_store_changes_until_expiry() {
    let mut rag = RagSystem::new(SearchMode::Lexical, 3, Some(3600));
    rag.add_document("the alpha memo".to_string(), None, None)
        .unwrap();
    let first = rag.search("alpha", None, 10, 100).unwrap();
    assert_eq!(first.len(), 1);

    // the store changes, the cache entry does not
    rag.add_document("another alpha paper".to_string(), None, None)
        .unwrap();
    let second = rag.search("alpha", None, 10, 300).unwrap();
    assert_eq!(second.len(), first.len());
    for (a, b) in first.iter().zip(second.iter()) {
        assert_eq!(a.id, b.id);
        assert_eq!(a.content, b.content);
        assert_eq!(a.score, b.score);
    }

    // one TTL later the entry no longer answers and the new store shows
    let third = rag.search("alpha", None, 10, 100 + 3600).unwrap();
    assert_eq!(third.len(), 2);
}

#[test]
fn cache_misses_on_different_query_text() {
    let mut rag = RagSystem::new(SearchMode::Lexical, 3, Some(3600));
    rag.add_document("the alpha memo".to_string(), None, None)
        .unwrap();
    let first = rag.search("alpha", None, 10, 0).unwrap();
    assert_eq!(first.len(), 1);
    // byte-identical text is required: even added whitespace misses
    rag.add_document("alpha again".to_string(), None, None)
        .unwrap();
    let other = rag.search("alpha ", None, 10, 1).unwrap();
    assert_eq!(other.len(), 2);
}

#[test]
fn lexical_search_is_case_insensitive_with_constant_score() {
    let mut rag = lexical_engine();
    let a = rag
        .add_document("The NEEDLE is in the haystack".to_string(), None, None)
        .unwrap();
    rag.add_document("nothing to see".to_string(), None, None)
        .unwrap();
    let hits = rag.search("NeEdLe", None, 10, 0).unwrap();
    assert_eq!(hits.len(), 1);
    assert_eq!(hits[0].id, a);
    assert_eq!(hits[0].score, 500);

    let misses = rag.search("zzz-not-there", None, 10, 1).unwrap();
    assert_eq!(misses.len(), 0);
}

#[test]
fn lexical_search_keeps_store_order_and_limit() {
    let mut rag = lexical_engine();
    for i in 0..4 {
        rag.add_document(format!("needle {}", i), None, None)
            .unwrap();
    }
    let hits = rag.search("needle", None, 3, 0).unwrap();
    assert_eq!(hits.len(), 3);
    assert_eq!(hits[0].content, "needle 0");
    assert_eq!(hits[1].content, "needle 1");
    assert_eq!(hits[2].content, "needle 2");
}

#[test]
fn empty_query_matches_everything_lexically() {
    let mut rag = lexical_engine();
    rag.add_document("a".to_string(), None, None).unwrap();
    rag.add_document("b".to_string(), None, None).unwrap();
    let hits = rag.search("", None, 10, 0).unwrap();
    assert_eq!(hits.len(), 2);
}

#[test]
fn lexical_matching_folds_case_beyond_ascii() {
    let mut rag = lexical_engine();
    rag.add_document("Bericht zum ÜBERFALL von gestern".to_string(), None, None)
        .unwrap();
    let hits = rag.search("überfall", None, 10, 0).unwrap();
    assert_eq!(hits.len(), 1);
}

#[test]
fn generated_ids_are_hyphenated_uuids_and_distinct() {
    let mut rag = lexical_engine();
    let a = rag.add_document("x".to_string(), None, None).unwrap();
    let b = rag.add_document("y".to_string(), None, None).unwrap();
    assert_eq!(a.chars().count(), 36);
    assert_eq!(b.chars().count(), 36);
    assert_ne!(a, b);
}
