//! Decisions of the question-answering path around the provider calls: which
//! question vector to search with, and what to report of the final chat
//! call.

use vstd::prelude::*;

use crate::errors::AnswerError;
use crate::errors::ProviderError;

verus! {

/// The retry budget of the embedding path.
pub const EMBED_RETRY_TIMES: u8 = 3;

/// How many search results the answer path requests from the store.
pub const SEARCH_LIMIT: u64 = 5;

/// Decides how the answer path continues after embedding the question, given
/// how many vectors the provider returned: the first vector is searched
/// with; a provider failure, or a reply without a single vector, is an
/// explicit fatal result for this one question.
pub fn question_vector_choice(embedded: Result<usize, ProviderError>) -> (r: Result<
    usize,
    AnswerError,
>)
    ensures
        match embedded {
            Ok(count) => if count == 0 {
                r == Err::<usize, AnswerError>(AnswerError::NoQuestionVector)
            } else {
                r == Ok::<usize, AnswerError>(0usize)
            },
            Err(e) => r == Err::<usize, AnswerError>(AnswerError::QuestionEmbedding(e)),
        },
{
    match embedded {
        Ok(count) => {
            if count == 0 {
                Err(AnswerError::NoQuestionVector)
            } else {
                Ok(0)
            }
        },
        Err(e) => Err(AnswerError::QuestionEmbedding(e)),
    }
}

/// Resolves the final chat call: the model's reply on success, no answer on
/// provider failure — the caller reports the absence rather than failing the
/// request.
pub fn resolve_answer(outcome: Result<String, ProviderError>) -> (r: Option<String>)
    ensures
        match outcome {
            Ok(reply) => r matches Some(a) && a@ == reply@,
            Err(_) => r is None,
        },
{
    match outcome {
        Ok(reply) => Some(reply),
        Err(_) => None,
    }
}

} // verus!
