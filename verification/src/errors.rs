//! Error taxonomy of the pipeline.
//!
//! `StoreError` covers vector-store operations, `ProviderError` covers
//! embedding and chat calls. `IngestError` classifies the failures that end
//! an ingestion run; each variant maps to the user-visible message the run
//! reports.

use vstd::prelude::*;

verus! {

/// A failure reported by the vector store for one operation.
#[derive(Debug, Clone, PartialEq, Eq)]
pub struct StoreError {
    pub message: String,
}

/// A failure reported by the embedding or chat provider for one call.
#[derive(Debug, Clone, PartialEq, Eq)]
pub struct ProviderError {
    pub message: String,
}

/// The failures that abort an ingestion run.
#[derive(Debug, PartialEq, Eq)]
pub enum IngestError {
    /// The request body did not parse into batches of text units.
    BodyNotParsable,
    /// The collection could not be recreated after a requested reset.
    CollectionCreate(StoreError),
    /// The collection's point count could not be read at run start.
    CollectionStats(StoreError),
    /// The produced points could not be stored.
    Upsert(StoreError),
    /// The post-upsert point count could not be read for reporting.
    FinalCount(StoreError),
}

impl IngestError {
    /// The user-visible message for this failure.
    pub fn message(&self) -> (r: String)
        ensures
            r@ == match self {
                IngestError::BodyNotParsable => "Cannot parse request body"@,
                IngestError::CollectionCreate(_) => "Cannot create collection"@,
                IngestError::CollectionStats(_) => "Cannot query database!"@,
                IngestError::Upsert(_) => "Cannot upsert into database!"@,
                IngestError::FinalCount(_) => "Cannot upsert into database!"@,
            },
    {
        match self {
            IngestError::BodyNotParsable => "Cannot parse request body".to_owned(),
            IngestError::CollectionCreate(_) => "Cannot create collection".to_owned(),
            IngestError::CollectionStats(_) => "Cannot query database!".to_owned(),
            IngestError::Upsert(_) => "Cannot upsert into database!".to_owned(),
            IngestError::FinalCount(_) => "Cannot upsert into database!".to_owned(),
        }
    }
}

/// The failures that end the answer path without an answer.
#[derive(Debug, PartialEq, Eq)]
pub enum AnswerError {
    /// The embedding call for the question itself failed.
    QuestionEmbedding(ProviderError),
    /// The provider returned no vector for the question.
    NoQuestionVector,
}

} // verus!
