use krypton_rag::engine::RagSystem;
use krypton_rag::engine::SearchMode;
use krypton_rag::ingest::IngestItem;
use krypton_rag::ingest::plan_ingest;

fn lexical_engine() -> RagSystem {
    RagSystem::new(SearchMode::Lexical, 3, None)
}

fn items_of(plan: krypton_rag::ingest::IngestPlan) -> Vec<IngestItem> {
    plan.records
        .into_iter()
        .map(|request| IngestItem { request, embedding: None })
        .collect()
}

fn ids_for(n: usize) -> Vec<String> {
    (0..n).map(|k| format!("rec-{}", k)).collect()
}

#[test]
fn thousand_record_array_imports_completely() {
    let mut body = String::from("[");
    for i in 0..1000 {
        if i > 0 {
            body.push(',');
        }
        body.push_str(&format!("{{\"content\":\"record number {}\"}}", i));
    }
    body.push(']');

    let plan = plan_ingest(&body.into_bytes());
    assert_eq!(plan.records.len(), 1000);
    assert_eq!(plan.parse_failures, 0);

    let mut rag = lexical_engine();
    rag.ingest_begin("bulk.json".to_string());
    let failures = plan.parse_failures;
    let items = items_of(plan);
    let ids = ids_for(items.len());
    rag.ingest_records(items, failures, ids);

    let status = rag.get_import_status();
    assert_eq!(status.processed_documents, 1000);
    assert_eq!(status.errors, 0);
    assert_eq!(status.total_documents, 1000);
    assert!(!status.is_processing);
    assert_eq!(status.current_file, "bulk.json");
    assert_eq!(status.message, "Import complete");
    assert_eq!(rag.count_documents(), 1000);
}

#[test]
fn mixed_line_file_processes_the_valid_records_and_counts_the_rest() {
    let mut body = String::new();
    for i in 0..1000 {
        if i % 10 == 3 {
            body.push_str(&format!("this line {} is not json\n", i));
        } else {
            body.push_str(&format!("{{\"content\":\"line record {}\"}}\n", i));
        }
    }

    let plan = plan_ingest(&body.into_bytes());
    assert_eq!(plan.records.len(), 900);
    assert_eq!(plan.parse_failures, 100);

    let mut rag = lexical_engine();
    rag.ingest_begin("lines.json".to_string());
    let failures = plan.parse_failures;
    let items = items_of(plan);
    let ids = ids_for(items.len());
    rag.ingest_records(items, failures, ids);

    let status = rag.get_import_status();
    assert_eq!(status.processed_documents, 900);
    assert_eq!(status.errors, 100);
    assert_eq!(status.total_documents, 1000);
    assert!(!status.is_processing);
    assert_eq!(status.message, "Import complete with errors");
    assert_eq!(rag.count_documents(), 900);
}

#[test]
fn blank_lines_are_skipped_silently() {
    let body = "{\"content\":\"a\"}\n\n   \n{\"content\":\"b\"}\n".to_string();
    let plan = plan_ingest(&body.into_bytes());
    assert_eq!(plan.records.len(), 2);
    assert_eq!(plan.parse_failures, 0);
}

#[test]
fn total_parse_failure_processes_nothing() {
    let plan = plan_ingest(&b"this is not json in any form".to_vec());
    assert_eq!(plan.records.len(), 0);
    assert_eq!(plan.parse_failures, 1);

    let mut rag = lexical_engine();
    rag.ingest_begin("broken.json".to_string());
    let failures = plan.parse_failures;
    let items = items_of(plan);
    let ids = ids_for(items.len());
    rag.ingest_records(items, failures, ids);

    let status = rag.get_import_status();
    assert_eq!(status.processed_documents, 0);
    assert_eq!(status.errors, 1);
    assert!(!status.is_processing);
    assert_eq!(status.message, "Import failed: no records could be read");
    assert_eq!(rag.count_documents(), 0);
}

#[test]
fn chunked_batches_publish_live_progress() {
    let mut rag = lexical_engine();
    rag.ingest_begin("chunks.json".to_string());

    let plan1 = plan_ingest(&b"{\"content\":\"one\"}\n{\"content\":\"two\"}\n".to_vec());
    let f1 = plan1.parse_failures;
    let items1 = items_of(plan1);
    rag.ingest_batch(items1, f1, vec!["a-1".to_string(), "a-2".to_string()]);

    // a poller between batches sees the job still running with live counts
    let mid = rag.get_import_status();
    assert!(mid.is_processing);
    assert_eq!(mid.processed_documents, 2);
    assert_eq!(mid.errors, 0);
    assert_eq!(mid.total_documents, 2);

    let plan2 = plan_ingest(&b"{\"content\":\"three\"}\nbroken line\n".to_vec());
    let f2 = plan2.parse_failures;
    let items2 = items_of(plan2);
    rag.ingest_batch(items2, f2, vec!["b-1".to_string()]);
    rag.ingest_finish();

    let status = rag.get_import_status();
    assert!(!status.is_processing);
    assert_eq!(status.processed_documents, 3);
    assert_eq!(status.errors, 1);
    assert_eq!(status.total_documents, 4);
    assert_eq!(rag.count_documents(), 3);
}

#[test]
fn a_colliding_id_is_counted_not_fatal() {
    let mut rag = lexical_engine();
    rag.ingest_begin("dup.json".to_string());
    let plan = plan_ingest(&b"{\"content\":\"first\"}\n{\"content\":\"second\"}\n".to_vec());
    let failures = plan.parse_failures;
    let items = items_of(plan);
    // both records were assigned the same id
    rag.ingest_records(items, failures, vec!["same".to_string(), "same".to_string()]);
    let status = rag.get_import_status();
    assert_eq!(status.processed_documents, 1);
    assert_eq!(status.errors, 1);
    assert_eq!(rag.count_documents(), 1);
}

#[test]
fn an_array_with_a_bad_record_falls_back_to_line_parsing() {
    let body = "[{\"content\":\"good\"},{\"note\":\"no content field\"}]".to_string();
    let plan = plan_ingest(&body.into_bytes());
    // the single line is a JSON array, not a record, so it fails as a line
    assert_eq!(plan.records.len(), 0);
    assert_eq!(plan.parse_failures, 1);
}

#[test]
fn metadata_is_kept_as_serialized_text() {
    let body = "{\"content\":\"with meta\",\"metadata\":{\"category\":\"Policy\"}}\n".to_string();
    let plan = plan_ingest(&body.into_bytes());
    assert_eq!(plan.records.len(), 1);
    let meta = plan.records[0].metadata.clone().unwrap();
    assert!(meta.contains("category"));
    assert!(meta.contains("Policy"));

    let mut rag = lexical_engine();
    rag.ingest_begin("meta.json".to_string());
    let failures = plan.parse_failures;
    let items = items_of(plan);
    let ids = ids_for(items.len());
    rag.ingest_records(items, failures, ids);
    let (page, _) = rag.list_documents(10, 0);
    assert_eq!(page[0].content, "with meta");
    assert!(page[0].metadata.clone().unwrap().contains("Policy"));
}

#[test]
fn vector_mode_counts_missing_embeddings_as_errors() {
    let body = "{\"content\":\"a\"}\n{\"content\":\"b\"}\n".to_string();
    let plan = plan_ingest(&body.into_bytes());
    assert_eq!(plan.records.len(), 2);

    let mut rag = RagSystem::new(SearchMode::Vector, 3, None);
    rag.ingest_begin("v.json".to_string());
    let failures = plan.parse_failures;
    let mut items = items_of(plan);
    // only the first record got an embedding from the provider
    items[0].embedding = Some(vec![1, 2, 3]);
    let ids = ids_for(items.len());
    rag.ingest_records(items, failures, ids);

    let status = rag.get_import_status();
    assert_eq!(status.processed_documents, 1);
    assert_eq!(status.errors, 1);
    assert_eq!(rag.count_documents(), 1);
}

#[test]
fn windows_line_endings_are_accepted() {
    let body = "{\"content\":\"one\"}\r\n{\"content\":\"two\"}\r\n".to_string();
    let plan = plan_ingest(&body.into_bytes());
    assert_eq!(plan.records.len(), 2);
    assert_eq!(plan.parse_failures, 0);
}

#[test]
fn ingest_begin_resets_the_status() {
    let mut rag = lexical_engine();
    let initial = rag.get_import_status();
    assert!(!initial.is_processing);
    assert_eq!(initial.total_documents, 0);
    assert_eq!(initial.current_file, "");
    assert_eq!(initial.message, "");

    rag.ingest_begin("first.json".to_string());
    let plan = plan_ingest(&b"{\"content\":\"x\"}\n".to_vec());
    let failures = plan.parse_failures;
    let items = items_of(plan);
    let ids = ids_for(items.len());
    rag.ingest_records(items, failures, ids);
    assert_eq!(rag.get_import_status().processed_documents, 1);

    rag.ingest_begin("second.json".to_string());
    let status = rag.get_import_status();
    assert!(status.is_processing);
    assert_eq!(status.processed_documents, 0);
    assert_eq!(status.errors, 0);
    assert_eq!(status.total_documents, 0);
    assert_eq!(status.current_file, "second.json");
}
