//! Verified core of a retrieval-augmented ingestion and question-answering
//! pipeline.
//!
//! Batches of text units are normalized (oversized units are summarized),
//! embedded, and stored as sequentially numbered points in a vector
//! collection; questions are answered from a deduplicated, threshold-filtered
//! context assembled out of similarity-search results. The network clients
//! (embedding and chat provider, vector store) are collaborators: the caller
//! performs each call and hands the outcome to the decision functions here.

pub mod answerer;
pub mod chunk_guard;
pub mod collection;
pub mod decimal;
pub mod embedding;
pub mod errors;
pub mod request;
pub mod retriever;
pub mod summarizer;
