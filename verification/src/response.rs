//! The response shapes the dispatcher hands back to the transport layer,
//! and the verified assembly of each one from a dispatch outcome.
//!
//! Failures never leak past these builders as errors: every multi-result
//! endpoint reports `"Failed"` with an empty result set, and translation
//! carries the failure's account in its own body. The per-chunk result
//! types stay generic, since what a backend scores a chunk with is the
//! backend's business, not this layer's.

use vstd::prelude::*;
use crate::error::{BackendError, Status};

verus! {

/// The translation endpoint's body: the original text alongside its
/// translation, or alongside the failure's account.
#[derive(Debug)]
pub struct TranslationResponse {
    pub orig_text: String,
    pub translation: String,
}

/// The zero-shot classification endpoint's body: the classified chunks,
/// one label-score list per chunk, and the dispatch status.
#[derive(Debug)]
pub struct ZeroShotResponse<L> {
    pub sentences: Vec<String>,
    pub responses: Vec<Vec<L>>,
    pub status: Status,
}

/// The keyword extraction endpoint's body: one keyword list per chunk,
/// and the dispatch status.
#[derive(Debug)]
pub struct ExtractionResponse<K> {
    pub results: Vec<Vec<K>>,
    pub status: Status,
}

/// The body shared by summarization and dialogue: one text and the
/// dispatch status.
#[derive(Debug)]
pub struct SimpleTextResponse {
    pub text: String,
    pub status: Status,
}

/// The landing endpoint's body.
#[derive(Debug)]
pub struct Info {
    pub message: String,
    pub server_address: String,
    pub timestamp: String,
}

/// Assembles the translation body: the original text always comes back,
/// beside the translation on success and beside the failure's account
/// otherwise.
pub fn translation_response(orig_text: String, outcome: Result<String, BackendError>) -> (r:
    TranslationResponse)
    ensures
        r.orig_text == orig_text,
        (match outcome {
            Ok(s) => r.translation == s,
            Err(e) => r.translation@ == e.detail_spec(),
        }),
{
    match outcome {
        Ok(s) => TranslationResponse { orig_text, translation: s },
        Err(e) => TranslationResponse { orig_text, translation: e.detail() },
    }
}

/// Assembles the zero-shot body. Success means one score list per
/// attempted chunk, index-aligned; a backend answer whose length does not
/// match the chunks broke its delivery contract and is reported as a
/// failure. Either way the attempted chunk texts come back, so the caller
/// always knows what inputs were tried; on failure they stand beside an
/// empty result set and the failed status.
pub fn zero_shot_response<L>(
    sentences: Vec<String>,
    outcome: Result<Vec<Vec<L>>, BackendError>,
) -> (r: ZeroShotResponse<L>)
    ensures
        r.sentences == sentences,
        r.status == Status::Succeeded <==> (outcome matches Ok(v) && v@.len()
            == sentences@.len()),
        (match outcome {
            Ok(v) => {
                if v@.len() == sentences@.len() {
                    r.responses == v
                } else {
                    r.responses@.len() == 0 && r.status == Status::Failed
                }
            },
            Err(_) => r.responses@.len() == 0 && r.status == Status::Failed,
        }),
        r.status == Status::Succeeded ==> r.responses@.len() == r.sentences@.len(),
{
    match outcome {
        Ok(v) => {
            if v.len() == sentences.len() {
                ZeroShotResponse { sentences, responses: v, status: Status::Succeeded }
            } else {
                ZeroShotResponse { sentences, responses: Vec::new(), status: Status::Failed }
            }
        },
        Err(_) => ZeroShotResponse { sentences, responses: Vec::new(), status: Status::Failed },
    }
}

/// Assembles the keyword extraction body: every chunk's keywords in chunk
/// order on success, an empty result set and the failed status otherwise.
pub fn extraction_response<K>(outcome: Result<Vec<Vec<K>>, BackendError>) -> (r:
    ExtractionResponse<K>)
    ensures
        (match outcome {
            Ok(v) => r.results == v && r.status == Status::Succeeded,
            Err(_) => r.results@.len() == 0 && r.status == Status::Failed,
        }),
{
    match outcome {
        Ok(v) => ExtractionResponse { results: v, status: Status::Succeeded },
        Err(_) => ExtractionResponse { results: Vec::new(), status: Status::Failed },
    }
}

/// Assembles the summarization and dialogue body: the produced text on
/// success, the failure's account and the failed status otherwise.
pub fn simple_text_response(outcome: Result<String, BackendError>) -> (r: SimpleTextResponse)
    ensures
        (match outcome {
            Ok(s) => r.text == s && r.status == Status::Succeeded,
            Err(e) => r.text@ == e.detail_spec() && r.status == Status::Failed,
        }),
{
    match outcome {
        Ok(s) => SimpleTextResponse { text: s, status: Status::Succeeded },
        Err(e) => SimpleTextResponse { text: e.detail(), status: Status::Failed },
    }
}

} // verus!
