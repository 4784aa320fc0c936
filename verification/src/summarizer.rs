//! Summarization of oversized units: the fixed instruction sent to the chat
//! provider, its settings, and the handling of the call's outcome.
//!
//! The chat call itself is made by the caller; on provider failure the unit
//! is reduced to an empty string rather than aborting the run — a tolerated,
//! expected outcome that drops the unit from the corpus.

use vstd::prelude::*;
use vstd::string::StringExecFns;

use crate::errors::ProviderError;

verus! {

/// The system prompt of every summarization call.
pub const SUMMARY_SYSTEM_PROMPT: &'static str = "You're a technical editor bot.";

/// The instruction preceding the oversized unit in the summarization prompt.
pub const SUMMARY_PROMPT_PREFIX: &'static str = "To prepare for a downstream question & answer task, you need to preprocess the source material; there are long chunks of text that are too long to use as context, and you need to extract the essence of such chunks. Now please summarize this chunk: `";

/// The instruction following the oversized unit in the summarization prompt.
pub const SUMMARY_PROMPT_SUFFIX: &'static str = "` into one concise paragraph; please stay truthful to the source material and handle the task in a factual manner.";

/// The retry budget of one summarization call, smaller than the embedding
/// path's.
pub const SUMMARY_RETRY_TIMES: u8 = 2;

/// The bound on the summary's generated length, in tokens.
pub const SUMMARY_MAX_TOKENS: u16 = 256;

/// Builds the prompt of one summarization call: the fixed instruction around
/// the unit's text.
pub fn summarize_prompt(unit: &str) -> (r: String)
    ensures
        r@ == SUMMARY_PROMPT_PREFIX@ + unit@ + SUMMARY_PROMPT_SUFFIX@,
{
    let mut out: String = SUMMARY_PROMPT_PREFIX.to_owned();
    out.append(unit);
    out.append(SUMMARY_PROMPT_SUFFIX);
    proof {
        assert(out@ =~= SUMMARY_PROMPT_PREFIX@ + unit@ + SUMMARY_PROMPT_SUFFIX@);
    }
    out
}

/// Resolves one summarization call: the reply on success, the empty string
/// on a tolerated provider failure.
pub fn resolve_summary(outcome: Result<String, ProviderError>) -> (r: String)
    ensures
        match outcome {
            Ok(reply) => r@ == reply@,
            Err(_) => r@ == Seq::<char>::empty(),
        },
{
    match outcome {
        Ok(reply) => reply,
        Err(_) => String::new(),
    }
}

} // verus!
