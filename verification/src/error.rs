//! The failures that cross the boundary, and the message each carries to the
//! host.

use crate::diagnostics::{FileSpanView, ResolvedFileSpan};
use vstd::prelude::*;
use vstd::string::StringExecFns;

verus! {

/// A failure of the boundary layer. Every one is a value handed back to the
/// caller; none ends the host process.
#[derive(Clone, Debug, PartialEq)]
pub enum BridgeError {
    /// The source is malformed.
    Parse { message: String, span: Option<ResolvedFileSpan> },
    /// The evaluator failed.
    Eval { message: String, span: Option<ResolvedFileSpan> },
    /// A value of type `kind` has no canonical form.
    Unrepresentable { kind: String },
    /// An integer is out of the range that the canonical form carries.
    UnrepresentableNumber { text: String },
    /// An operator met an operand that it does not take.
    OperationNotSupported { op: String, left_type: String, right_type: String },
    /// A constructor met an argument that it does not take.
    ConstructorTypeError { op: String, arg_type: String },
    /// The right operand of a division is zero.
    DivisionByZero,
    /// The result of decimal arithmetic is out of range.
    Overflow { op: String },
    /// A frozen namespace was asked to change.
    FrozenViolation,
    /// A module could not be loaded.
    Load { path: String, message: String },
    /// The host raised an exception.
    Host { message: String },
    /// A decimal of the host has no counterpart here.
    InvalidDecimal { message: String },
    /// A syntax tree that an evaluation consumed was asked for again.
    AstConsumed,
}

/// What a `BridgeError` holds.
pub enum ErrorView {
    Parse { message: Seq<char>, span: Option<FileSpanView> },
    Eval { message: Seq<char>, span: Option<FileSpanView> },
    Unrepresentable { kind: Seq<char> },
    UnrepresentableNumber { text: Seq<char> },
    OperationNotSupported { op: Seq<char>, left_type: Seq<char>, right_type: Seq<char> },
    ConstructorTypeError { op: Seq<char>, arg_type: Seq<char> },
    DivisionByZero,
    Overflow { op: Seq<char> },
    FrozenViolation,
    Load { path: Seq<char>, message: Seq<char> },
    Host { message: Seq<char> },
    InvalidDecimal { message: Seq<char> },
    AstConsumed,
}

/// The view of an optional span.
pub open spec fn span_view(span: Option<ResolvedFileSpan>) -> Option<FileSpanView> {
    match span {
        Some(s) => Some(s@),
        None => None,
    }
}

impl View for BridgeError {
    type V = ErrorView;

    open spec fn view(&self) -> ErrorView {
        match self {
            BridgeError::Parse { message, span } => ErrorView::Parse {
                message: message@,
                span: span_view(*span),
            },
            BridgeError::Eval { message, span } => ErrorView::Eval {
                message: message@,
                span: span_view(*span),
            },
            BridgeError::Unrepresentable { kind } => ErrorView::Unrepresentable { kind: kind@ },
            BridgeError::UnrepresentableNumber { text } => ErrorView::UnrepresentableNumber {
                text: text@,
            },
            BridgeError::OperationNotSupported {
                op,
                left_type,
                right_type,
            } => ErrorView::OperationNotSupported {
                op: op@,
                left_type: left_type@,
                right_type: right_type@,
            },
            BridgeError::ConstructorTypeError { op, arg_type } => ErrorView::ConstructorTypeError {
                op: op@,
                arg_type: arg_type@,
            },
            BridgeError::DivisionByZero => ErrorView::DivisionByZero,
            BridgeError::Overflow { op } => ErrorView::Overflow { op: op@ },
            BridgeError::FrozenViolation => ErrorView::FrozenViolation,
            BridgeError::Load { path, message } => ErrorView::Load {
                path: path@,
                message: message@,
            },
            BridgeError::Host { message } => ErrorView::Host { message: message@ },
            BridgeError::InvalidDecimal { message } => ErrorView::InvalidDecimal {
                message: message@,
            },
            BridgeError::AstConsumed => ErrorView::AstConsumed,
        }
    }
}

/// The message that an error carries to the host.
pub open spec fn message_text(error: ErrorView) -> Seq<char> {
    match error {
        ErrorView::Parse { message, span } => message,
        ErrorView::Eval { message, span } => message,
        ErrorView::Unrepresentable { kind } => "Value of type `"@ + kind
            + "` has no canonical form"@,
        ErrorView::UnrepresentableNumber { text } =>
            "Number can't be represented, perhaps a float value that is too precise, got `"@
            + text,
        ErrorView::OperationNotSupported { op, left_type, right_type } => "Operation `"@ + op
            + "` not supported for types `"@ + left_type + "` and `"@ + right_type + "`"@,
        ErrorView::ConstructorTypeError { op, arg_type } => "Operation `"@ + op
            + "` not supported on type `"@ + arg_type + "`"@,
        ErrorView::DivisionByZero => "Cannot divide by zero"@,
        ErrorView::Overflow { op } => "Decimal overflow in operation `"@ + op + "`"@,
        ErrorView::FrozenViolation => "Cannot mutate a frozen namespace"@,
        ErrorView::Load { path, message } => "Cannot load `"@ + path + "`: "@ + message,
        ErrorView::Host { message } => message,
        ErrorView::InvalidDecimal { message } => message,
        ErrorView::AstConsumed => "The syntax tree was evaluated already"@,
    }
}

impl BridgeError {
    /// The message that the error carries to the host.
    pub fn message(&self) -> (r: String)
        ensures
            r@ == message_text(self@),
    {
        let mut out = String::new();
        match self {
            BridgeError::Parse { message, span } => {
                out.append(message.as_str());
            },
            BridgeError::Eval { message, span } => {
                out.append(message.as_str());
            },
            BridgeError::Unrepresentable { kind } => {
                out.append("Value of type `");
                out.append(kind.as_str());
                out.append("` has no canonical form");
            },
            BridgeError::UnrepresentableNumber { text } => {
                out.append(
                    "Number can't be represented, perhaps a float value that is too precise, got `",
                );
                out.append(text.as_str());
            },
            BridgeError::OperationNotSupported { op, left_type, right_type } => {
                out.append("Operation `");
                out.append(op.as_str());
                out.append("` not supported for types `");
                out.append(left_type.as_str());
                out.append("` and `");
                out.append(right_type.as_str());
                out.append("`");
            },
            BridgeError::ConstructorTypeError { op, arg_type } => {
                out.append("Operation `");
                out.append(op.as_str());
                out.append("` not supported on type `");
                out.append(arg_type.as_str());
                out.append("`");
            },
            BridgeError::DivisionByZero => {
                out.append("Cannot divide by zero");
            },
            BridgeError::Overflow { op } => {
                out.append("Decimal overflow in operation `");
                out.append(op.as_str());
                out.append("`");
            },
            BridgeError::FrozenViolation => {
                out.append("Cannot mutate a frozen namespace");
            },
            BridgeError::Load { path, message } => {
                out.append("Cannot load `");
                out.append(path.as_str());
                out.append("`: ");
                out.append(message.as_str());
            },
            BridgeError::Host { message } => {
                out.append(message.as_str());
            },
            BridgeError::InvalidDecimal { message } => {
                out.append(message.as_str());
            },
            BridgeError::AstConsumed => {
                out.append("The syntax tree was evaluated already");
            },
        }
        assert(out@ =~= message_text(self@));
        out
    }

    /// The place in the source that the error speaks of, where it has one.
    pub fn span(&self) -> (r: Option<ResolvedFileSpan>)
        ensures
            span_view(r) == match self@ {
                ErrorView::Parse { message, span } => span,
                ErrorView::Eval { message, span } => span,
                _ => None,
            },
    {
        match self {
            BridgeError::Parse { message, span } => match span {
                Some(s) => Some(s.duplicate()),
                None => None,
            },
            BridgeError::Eval { message, span } => match span {
                Some(s) => Some(s.duplicate()),
                None => None,
            },
            _ => None,
        }
    }
}

} // verus!
