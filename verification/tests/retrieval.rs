use rag_pipeline::answerer::question_vector_choice;
use rag_pipeline::answerer::resolve_answer;
use rag_pipeline::errors::{AnswerError, ProviderError, StoreError};
use rag_pipeline::retriever::{
    assemble_context, contains_substring, context_from_search, SearchHit, CONTEXT_PREAMBLE,
    RELEVANCE_THRESHOLD,
};
use rag_pipeline::summarizer::{
    resolve_summary, summarize_prompt, SUMMARY_PROMPT_PREFIX, SUMMARY_PROMPT_SUFFIX,
};

fn hit(score: u32, text: &str) -> SearchHit {
    SearchHit {
        score,
        text: text.to_string(),
    }
}

#[test]
fn scenario_threshold_and_substring_dedup() {
    // Five results; only two exceed the relevance threshold, and one of
    // those is a substring of the other's text: the context includes exactly
    // one fragment.
    let hits = vec![
        hit(9100, "the quick brown fox jumps"),
        hit(8200, "quick brown fox"),
        hit(7500, "at the threshold"),
        hit(7000, "below the threshold"),
        hit(100, "far below"),
    ];
    let context = assemble_context(CONTEXT_PREAMBLE, &hits);
    let expected = format!("{}the quick brown fox jumps\n", CONTEXT_PREAMBLE);
    assert_eq!(context, expected);
}

#[test]
fn threshold_is_strict() {
    let at = vec![hit(RELEVANCE_THRESHOLD, "exactly at it")];
    assert_eq!(assemble_context(CONTEXT_PREAMBLE, &at), CONTEXT_PREAMBLE);
    let above = vec![hit(RELEVANCE_THRESHOLD + 1, "just above it")];
    assert_eq!(
        assemble_context(CONTEXT_PREAMBLE, &above),
        format!("{}just above it\n", CONTEXT_PREAMBLE)
    );
}

#[test]
fn exact_duplicates_are_included_once() {
    let hits = vec![hit(9000, "same text"), hit(8000, "same text")];
    assert_eq!(
        assemble_context(CONTEXT_PREAMBLE, &hits),
        format!("{}same text\n", CONTEXT_PREAMBLE)
    );
}

#[test]
fn fragments_arrive_in_store_order() {
    let hits = vec![hit(9000, "first fragment"), hit(8000, "second fragment")];
    assert_eq!(
        assemble_context(CONTEXT_PREAMBLE, &hits),
        format!("{}first fragment\nsecond fragment\n", CONTEXT_PREAMBLE)
    );
}

#[test]
fn fragment_already_in_preamble_is_excluded() {
    // Deduplication is against the whole context accumulated so far, which
    // starts with the preamble.
    let hits = vec![hit(9000, "pieces of context")];
    assert_eq!(assemble_context(CONTEXT_PREAMBLE, &hits), CONTEXT_PREAMBLE);
}

#[test]
fn failed_search_degrades_to_preamble_alone() {
    let err: Result<Vec<SearchHit>, StoreError> = Err(StoreError {
        message: "search down".to_string(),
    });
    assert_eq!(context_from_search(err), CONTEXT_PREAMBLE);
    let empty: Result<Vec<SearchHit>, StoreError> = Ok(Vec::new());
    assert_eq!(context_from_search(empty), CONTEXT_PREAMBLE);
    let some: Result<Vec<SearchHit>, StoreError> = Ok(vec![hit(9000, "a fact")]);
    assert_eq!(
        context_from_search(some),
        format!("{}a fact\n", CONTEXT_PREAMBLE)
    );
}

#[test]
fn substring_search_agrees_with_std() {
    assert!(contains_substring("hello world", "lo wo"));
    assert!(contains_substring("hello world", "hello world"));
    assert!(contains_substring("hello world", ""));
    assert!(!contains_substring("hello", "hello world"));
    assert!(!contains_substring("abcabc", "cb"));
    assert!(contains_substring("na\u{00ef}ve caf\u{00e9}", "caf\u{00e9}"));
    assert!(!contains_substring("", "x"));
}

#[test]
fn question_vector_decision() {
    assert_eq!(question_vector_choice(Ok(1)), Ok(0));
    assert_eq!(question_vector_choice(Ok(3)), Ok(0));
    assert_eq!(
        question_vector_choice(Ok(0)),
        Err(AnswerError::NoQuestionVector)
    );
    let e = ProviderError {
        message: "quota".to_string(),
    };
    assert_eq!(
        question_vector_choice(Err(e.clone())),
        Err(AnswerError::QuestionEmbedding(e))
    );
}

#[test]
fn answer_is_reply_or_absent() {
    assert_eq!(
        resolve_answer(Ok("an answer".to_string())),
        Some("an answer".to_string())
    );
    assert_eq!(
        resolve_answer(Err(ProviderError {
            message: "overloaded".to_string()
        })),
        None
    );
}

#[test]
fn summary_is_reply_or_empty() {
    assert_eq!(resolve_summary(Ok("a summary".to_string())), "a summary");
    assert_eq!(
        resolve_summary(Err(ProviderError {
            message: "overloaded".to_string()
        })),
        ""
    );
}

#[test]
fn summarize_prompt_embeds_the_unit() {
    let prompt = summarize_prompt("the long chunk");
    assert_eq!(
        prompt,
        format!("{}the long chunk{}", SUMMARY_PROMPT_PREFIX, SUMMARY_PROMPT_SUFFIX)
    );
}
