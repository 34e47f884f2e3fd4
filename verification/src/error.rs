//! The errors that the library reports.

use vstd::prelude::*;

verus! {

/// What goes wrong between the program and a language model.
#[derive(Debug)]
pub enum LlmError {
    RequestFailed { provider: String, reason: String },
    ContextLengthExceeded { used: usize, limit: usize },
    InvalidResponse { provider: String, reason: String },
}

/// What an [`LlmError`] says.
#[verifier::ext_equal]
pub enum LlmErrorView {
    RequestFailed { provider: Seq<char>, reason: Seq<char> },
    ContextLengthExceeded { used: usize, limit: usize },
    InvalidResponse { provider: Seq<char>, reason: Seq<char> },
}

impl View for LlmError {
    type V = LlmErrorView;

    open spec fn view(&self) -> LlmErrorView {
        match *self {
            LlmError::RequestFailed { provider, reason } => LlmErrorView::RequestFailed {
                provider: provider@,
                reason: reason@,
            },
            LlmError::ContextLengthExceeded { used, limit } => LlmErrorView::ContextLengthExceeded {
                used,
                limit,
            },
            LlmError::InvalidResponse { provider, reason } => LlmErrorView::InvalidResponse {
                provider: provider@,
                reason: reason@,
            },
        }
    }
}

impl LlmErrorView {
    /// A request to the streaming endpoint that failed.
    pub open spec fn request_failed(reason: Seq<char>) -> LlmErrorView {
        LlmErrorView::RequestFailed { provider: "openai_streaming"@, reason }
    }
}

impl LlmError {
    /// A request to the streaming endpoint that failed.
    pub fn request_failed(reason: String) -> (r: LlmError)
        ensures
            r@ == LlmErrorView::request_failed(reason@),
    {
        LlmError::RequestFailed { provider: "openai_streaming".to_string(), reason }
    }
}

/// An error of the program: one of the language model, or another one.
#[derive(Debug)]
pub enum Error<O> {
    Llm(LlmError),
    Other(O),
}

} // verus!
