//! What the boundary layer does around an evaluation: it resolves the
//! modules that the evaluated code loads, and hands the result to the host.
//!
//! The evaluator and the host's resolver are not part of the layer. It takes
//! what they return and decides what crosses the boundary.

use crate::codec::{canonical_outcome_view, encode, to_canonical, CanonicalValue, CanonicalView};
use crate::diagnostics::ResolvedFileSpan;
use crate::error::{span_view, BridgeError, ErrorView};
use crate::value::Value;
use vstd::prelude::*;

verus! {

/// How an evaluation failed: the evaluator's message, and the place in the
/// source that it speaks of, where it names one.
#[derive(Clone, Debug, PartialEq)]
pub struct EvalFailure {
    pub message: String,
    pub span: Option<ResolvedFileSpan>,
}

/// What the host gets from an evaluation: the canonical form of the value,
/// or the evaluator's failure with its message and its place.
pub open spec fn concluded(evaluated: Result<Value, EvalFailure>) -> Result<CanonicalView, ErrorView> {
    match evaluated {
        Ok(v) => encode(v@),
        Err(failure) => Err(
            ErrorView::Eval { message: failure.message@, span: span_view(failure.span) },
        ),
    }
}

/// Hands the outcome of an evaluation to the host.
pub fn conclude(evaluated: Result<Value, EvalFailure>) -> (r: Result<CanonicalValue, BridgeError>)
    ensures
        canonical_outcome_view(r) == concluded(evaluated),
{
    match evaluated {
        Ok(v) => to_canonical(&v),
        Err(failure) => Err(BridgeError::Eval { message: failure.message, span: failure.span }),
    }
}

/// Resolves a `load` of the evaluated code. `resolved` is what the host's
/// resolver returned for the path: the frozen module, which is handed on as
/// it is, or the message of the host's failure, which becomes a load error
/// that names the path. The bridge does not look into the module.
pub fn load<M>(path: &str, resolved: Result<M, String>) -> (r: Result<M, BridgeError>)
    ensures
        match resolved {
            Ok(module) => r == Ok::<M, BridgeError>(module),
            Err(message) => r matches Err(e) && e@ == (ErrorView::Load {
                path: path@,
                message: message@,
            }),
        },
{
    match resolved {
        Ok(module) => Ok(module),
        Err(message) => Err(BridgeError::Load { path: path.to_owned(), message }),
    }
}

} // verus!
