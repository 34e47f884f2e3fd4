//! Around the agent loop: the errors that come out of it and the hooks that go
//! into it.

use crate::error::{Error, LlmError, LlmErrorView};
use std::sync::Arc;
use vstd::prelude::*;

verus! {

/// An error that the engine hands back: one of this program that went through the
/// engine untouched, or a foreign one, of which its message is known.
#[derive(Debug)]
pub enum HostError<O> {
    Own(Error<O>),
    Foreign(String),
}

/// The error of this program for one that the engine hands back.
pub fn host_err_to_error<O>(e: HostError<O>) -> (r: Error<O>)
    ensures
        match e {
            HostError::Own(own) => r == own,
            HostError::Foreign(message) => r matches Error::Llm(llm) && llm@
                == (LlmErrorView::InvalidResponse { provider: "agent"@, reason: message@ }),
        },
{
    match e {
        HostError::Own(own) => own,
        HostError::Foreign(message) => Error::Llm(
            LlmError::InvalidResponse { provider: "agent".to_string(), reason: message },
        ),
    }
}

/// What a slot of the engine's hook bundle is filled with.
#[derive(Debug)]
pub enum Hook<S> {
    /// Does nothing.
    Noop,
    /// Keeps what it is given in memory.
    InMemory,
    /// Says yes to everything.
    AutoApprove,
    /// Asks the safety layer.
    Safety(Arc<S>),
}

/// The hooks that the engine calls.
#[derive(Debug)]
pub struct HookBundle<S> {
    pub safety: Hook<S>,
    pub sandbox: Hook<S>,
    pub secrets: Hook<S>,
    pub approval: Hook<S>,
}

impl<S> HookBundle<S> {
    /// The hooks of an engine that nothing is plugged into.
    pub open spec fn defaults() -> HookBundle<S> {
        HookBundle {
            safety: Hook::Noop,
            sandbox: Hook::Noop,
            secrets: Hook::InMemory,
            approval: Hook::AutoApprove,
        }
    }

    /// The hooks of an engine that nothing is plugged into.
    pub fn noop() -> (r: HookBundle<S>)
        ensures
            r == HookBundle::<S>::defaults(),
            r.safety is Noop && r.sandbox is Noop,
            r.secrets is InMemory && r.approval is AutoApprove,
    {
        HookBundle {
            safety: Hook::Noop,
            sandbox: Hook::Noop,
            secrets: Hook::InMemory,
            approval: Hook::AutoApprove,
        }
    }
}

/// The hooks of an engine whose safety hook asks `safety`. The other slots keep
/// their defaults.
pub fn hook_bundle_with_safety<S>(safety: Arc<S>) -> (r: HookBundle<S>)
    ensures
        r == (HookBundle { safety: Hook::Safety(safety), ..HookBundle::<S>::defaults() }),
        r.safety == Hook::Safety(safety) && r.sandbox is Noop,
        r.secrets is InMemory && r.approval is AutoApprove,
{
    let mut bundle: HookBundle<S> = HookBundle::noop();
    bundle.safety = Hook::Safety(safety);
    bundle
}

} // verus!
