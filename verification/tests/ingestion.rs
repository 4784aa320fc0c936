use rag_pipeline::chunk_guard::{needs_summarization, normalize_batch, CHAR_SOFT_LIMIT};
use rag_pipeline::collection::{
    after_upsert, ingest_summary, report_message, setup_step, start_id_for, IngestSummary,
    SetupEvent, SetupStep,
};
use rag_pipeline::decimal::decimal_string;
use rag_pipeline::embedding::{assign_points, EmbedOutcome, PointRecord};
use rag_pipeline::errors::{IngestError, StoreError};
use rag_pipeline::request::{
    flatten_batches, parse_batches, parse_units, parse_vector_size, parse_u64,
    DEFAULT_VECTOR_SIZE,
};

fn store_err(msg: &str) -> StoreError {
    StoreError {
        message: msg.to_string(),
    }
}

#[test]
fn scenario_reset_single_unit() {
    // reset=true, vector_size=3, body [["hello world"]], one successful
    // embedding: the collection is recreated, one point with id 0 is
    // upserted, and the run reports one inserted record and a total of one.
    let step = setup_step(true, 3);
    assert_eq!(step, SetupStep::ResetCollection { vector_size: 3 });
    let start = start_id_for(SetupEvent::Created(Ok(()))).unwrap();
    assert_eq!(start, 0);

    let units = parse_units(&b"[[\"hello world\"]]".to_vec()).unwrap();
    assert_eq!(units, vec!["hello world".to_string()]);
    assert!(!needs_summarization(&units));
    let units = normalize_batch(units, Vec::new());

    let outcomes = vec![EmbedOutcome::Embedded { vectors: 1 }];
    let points = assign_points(&units, &outcomes, start);
    assert_eq!(
        points,
        vec![PointRecord {
            id: 0,
            unit_index: 0,
            vector_index: 0,
            text: "hello world".to_string(),
        }]
    );

    after_upsert(Ok(())).unwrap();
    let summary = ingest_summary(points.len(), Ok(1)).unwrap();
    assert_eq!(
        report_message(&summary),
        "Successfully inserted 1 records. The collection now has 1 records in total."
    );
}

#[test]
fn scenario_continuation_two_vectors() {
    // A continuation run against a collection holding 7 points, with one
    // unit that embeds into 2 vectors: the points get ids 7 and 8 and the
    // reported total becomes 9.
    let step = setup_step(false, 3);
    assert_eq!(step, SetupStep::QueryPointCount);
    let start = start_id_for(SetupEvent::Counted(Ok(7))).unwrap();
    assert_eq!(start, 7);

    let units = vec!["unit".to_string()];
    let outcomes = vec![EmbedOutcome::Embedded { vectors: 2 }];
    let points = assign_points(&units, &outcomes, start);
    assert_eq!(points.len(), 2);
    assert_eq!(points[0].id, 7);
    assert_eq!(points[1].id, 8);
    assert_eq!(points[0].vector_index, 0);
    assert_eq!(points[1].vector_index, 1);

    let summary = ingest_summary(points.len(), Ok(9)).unwrap();
    assert_eq!(
        report_message(&summary),
        "Successfully inserted 2 records. The collection now has 9 records in total."
    );
}

#[test]
fn scenario_partial_embedding_failure() {
    // One of two units fails its embedding call: only the surviving unit's
    // point is produced and the run still reports success with the reduced
    // count.
    let units = vec!["first".to_string(), "second".to_string()];
    let outcomes = vec![EmbedOutcome::Failed, EmbedOutcome::Embedded { vectors: 1 }];
    let points = assign_points(&units, &outcomes, 0);
    assert_eq!(points.len(), 1);
    assert_eq!(points[0].id, 0);
    assert_eq!(points[0].unit_index, 1);
    assert_eq!(points[0].text, "second");

    let summary = ingest_summary(points.len(), Ok(1)).unwrap();
    assert_eq!(summary, IngestSummary { inserted: 1, total: 1 });
}

#[test]
fn all_embeddings_failed_yields_no_points() {
    let units = vec!["a".to_string(), "b".to_string()];
    let outcomes = vec![EmbedOutcome::Failed, EmbedOutcome::Failed];
    let points = assign_points(&units, &outcomes, 5);
    assert!(points.is_empty());
}

#[test]
fn ids_continue_across_multi_vector_units() {
    let units = vec!["a".to_string(), "b".to_string(), "c".to_string()];
    let outcomes = vec![
        EmbedOutcome::Embedded { vectors: 2 },
        EmbedOutcome::Failed,
        EmbedOutcome::Embedded { vectors: 1 },
    ];
    let points = assign_points(&units, &outcomes, 10);
    let ids: Vec<u64> = points.iter().map(|p| p.id).collect();
    assert_eq!(ids, vec![10, 11, 12]);
    assert_eq!(points[2].unit_index, 2);
    assert_eq!(points[2].text, "c");
}

#[test]
fn setup_failures_abort_the_run() {
    assert_eq!(
        start_id_for(SetupEvent::Created(Err(store_err("boom")))),
        Err(IngestError::CollectionCreate(store_err("boom")))
    );
    assert_eq!(
        start_id_for(SetupEvent::Counted(Err(store_err("down")))),
        Err(IngestError::CollectionStats(store_err("down")))
    );
    assert_eq!(
        after_upsert(Err(store_err("full"))),
        Err(IngestError::Upsert(store_err("full")))
    );
    assert_eq!(
        ingest_summary(3, Err(store_err("late"))),
        Err(IngestError::FinalCount(store_err("late")))
    );
}

#[test]
fn error_messages_match_reported_text() {
    assert_eq!(IngestError::BodyNotParsable.message(), "Cannot parse request body");
    assert_eq!(
        IngestError::CollectionCreate(store_err("x")).message(),
        "Cannot create collection"
    );
    assert_eq!(
        IngestError::CollectionStats(store_err("x")).message(),
        "Cannot query database!"
    );
    assert_eq!(
        IngestError::Upsert(store_err("x")).message(),
        "Cannot upsert into database!"
    );
    assert_eq!(
        IngestError::FinalCount(store_err("x")).message(),
        "Cannot upsert into database!"
    );
}

#[test]
fn oversized_unit_triggers_batch_summarization() {
    let small = "a".repeat(CHAR_SOFT_LIMIT);
    let big = "b".repeat(CHAR_SOFT_LIMIT + 1);
    assert!(!needs_summarization(&vec![small.clone()]));
    assert!(needs_summarization(&vec![big.clone()]));
    // The decision is batch-wide: one oversized unit routes every unit
    // through summarization.
    assert!(needs_summarization(&vec!["tiny".to_string(), big.clone()]));
    assert!(!needs_summarization(&Vec::new()));

    let summaries = vec!["s1".to_string(), "s2".to_string()];
    let normalized = normalize_batch(vec!["tiny".to_string(), big], summaries.clone());
    assert_eq!(normalized, summaries);
}

#[test]
fn batch_within_limit_passes_through_unchanged() {
    let units = vec!["one".to_string(), "two".to_string()];
    let normalized = normalize_batch(units.clone(), Vec::new());
    assert_eq!(normalized, units);
}

#[test]
fn soft_limit_counts_characters_not_bytes() {
    // Multi-byte characters: the limit is on character count.
    let big = "\u{00e9}".repeat(CHAR_SOFT_LIMIT + 1);
    assert!(big.len() > CHAR_SOFT_LIMIT + 1);
    assert!(needs_summarization(&vec![big]));
    let at_limit = "\u{00e9}".repeat(CHAR_SOFT_LIMIT);
    assert!(!needs_summarization(&vec![at_limit]));
}

#[test]
fn body_parses_into_flattened_units() {
    let body = b"[[\"alpha\",\"beta\"],[],[\"gamma\"]]".to_vec();
    let batches = parse_batches(&body).unwrap();
    assert_eq!(
        batches,
        vec![
            vec!["alpha".to_string(), "beta".to_string()],
            Vec::new(),
            vec!["gamma".to_string()],
        ]
    );
    let units = flatten_batches(&batches);
    assert_eq!(
        units,
        vec!["alpha".to_string(), "beta".to_string(), "gamma".to_string()]
    );
}

#[test]
fn malformed_body_is_an_explicit_failure() {
    assert_eq!(
        parse_units(&b"not json".to_vec()),
        Err(IngestError::BodyNotParsable)
    );
    assert_eq!(
        parse_units(&b"[\"flat strings\"]".to_vec()),
        Err(IngestError::BodyNotParsable)
    );
    assert_eq!(parse_units(&b"".to_vec()), Err(IngestError::BodyNotParsable));
}

#[test]
fn vector_size_parses_or_falls_back() {
    assert_eq!(parse_vector_size(&b"3".to_vec()), 3);
    assert_eq!(parse_vector_size(&b"1024".to_vec()), 1024);
    assert_eq!(parse_vector_size(&b"".to_vec()), DEFAULT_VECTOR_SIZE);
    assert_eq!(parse_vector_size(&b"3x".to_vec()), DEFAULT_VECTOR_SIZE);
    assert_eq!(parse_vector_size(&b"-1".to_vec()), DEFAULT_VECTOR_SIZE);
    assert_eq!(
        parse_vector_size(&b"18446744073709551615".to_vec()),
        u64::MAX
    );
    assert_eq!(
        parse_vector_size(&b"18446744073709551616".to_vec()),
        DEFAULT_VECTOR_SIZE
    );
}

#[test]
fn decimal_parse_and_render() {
    assert_eq!(parse_u64(&b"0".to_vec()), Some(0));
    assert_eq!(parse_u64(&b"007".to_vec()), Some(7));
    assert_eq!(parse_u64(&b"42".to_vec()), Some(42));
    assert_eq!(parse_u64(&b" 42".to_vec()), None);
    assert_eq!(decimal_string(0), "0");
    assert_eq!(decimal_string(42), "42");
    assert_eq!(decimal_string(1536), "1536");
    assert_eq!(decimal_string(u64::MAX), "18446744073709551615");
}
