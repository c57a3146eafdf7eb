//! Errors of lowering.

use crate::common::diagnostics::Span;
use crate::common::text::{decimal, format_u64, own};
use crate::common::types::CType;
use crate::ir::types::IrType;
use vstd::prelude::*;

verus! {

/// What keeps lowering from producing correct code.
#[derive(Debug)]
pub enum LoweringError {
    /// Constructs nest more deeply than `limit`.
    RecursionLimitExceeded { limit: u32 },
    /// A C type has no counterpart.
    TypeConversionError { from: Box<CType>, to: Box<IrType>, span: Span },
    /// A construct is not supported.
    UnsupportedConstruct { description: String, span: Span },
    /// Something that should not happen happened.
    InternalError { message: String },
}

/// A place in a source file.
pub open spec fn place_text(span: Span) -> Seq<char> {
    decimal(span.file_id as nat) + ":"@ + decimal(span.start as nat) + ": "@
}

impl LoweringError {
    /// The message of an error. `shown` is how the C type of a failed conversion
    /// is displayed.
    pub open spec fn message(self, shown: Seq<char>) -> Seq<char> {
        match self {
            LoweringError::RecursionLimitExceeded { limit } =>
            "recursion limit exceeded during IR lowering (limit: "@ + decimal(limit as nat) + ")"@,
            LoweringError::TypeConversionError { span, .. } => "type conversion error at "@
                + place_text(span) + shown,
            LoweringError::UnsupportedConstruct { description, span } =>
            "unsupported construct at "@ + place_text(span) + description@,
            LoweringError::InternalError { message } =>
            "internal compiler error during IR lowering: "@ + message@,
        }
    }

    /// The message of the error. `shown` is how the C type of a failed conversion
    /// is displayed.
    pub fn text(&self, shown: &str) -> (r: String)
        ensures
            r@ == self.message(shown@),
    {
        match self {
            LoweringError::RecursionLimitExceeded { limit } => {
                let mut s: String = own("recursion limit exceeded during IR lowering (limit: ");
                let n: String = format_u64(*limit as u64);
                s.append(n.as_str());
                s.append(")");
                s
            },
            LoweringError::TypeConversionError { span, .. } => at_place(
                "type conversion error at ",
                *span,
                shown,
            ),
            LoweringError::UnsupportedConstruct { description, span } => at_place(
                "unsupported construct at ",
                *span,
                description.as_str(),
            ),
            LoweringError::InternalError { message } => {
                let mut s: String = own("internal compiler error during IR lowering: ");
                s.append(message.as_str());
                s
            },
        }
    }
}

fn at_place(before: &str, span: Span, after: &str) -> (r: String)
    ensures
        r@ == before@ + place_text(span) + after@,
{
    let mut s: String = own(before);
    let file: String = format_u64(span.file_id as u64);
    let start: String = format_u64(span.start as u64);
    s.append(file.as_str());
    s.append(":");
    s.append(start.as_str());
    s.append(": ");
    s.append(after);
    assert(s@ =~= before@ + place_text(span) + after@);
    s
}

} // verus!
