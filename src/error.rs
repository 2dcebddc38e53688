//! Why a line cannot be translated.
use vstd::prelude::*;

use crate::text::str_eq;

verus! {

/// A translation error; each one ends the whole pass.
#[derive(Debug)]
pub enum TransError {
    /// The opcode needs an operand and the line has none.
    MissingOperand(String),
    /// The opcode needs a label before it and the line has none.
    MissingLabel(String),
    /// The line holds a label alone.
    MissingOpcode,
    /// The token after a label is no opcode.
    InvalidOpcode(String),
    /// The opcode is recognised but cannot be translated.
    Unimplemented(String),
}

/// The mathematical value of a `TransError`.
pub enum TransErrorView {
    MissingOperand(Seq<char>),
    MissingLabel(Seq<char>),
    MissingOpcode,
    InvalidOpcode(Seq<char>),
    Unimplemented(Seq<char>),
}

impl View for TransError {
    type V = TransErrorView;

    open spec fn view(&self) -> TransErrorView {
        match self {
            TransError::MissingOperand(op) => TransErrorView::MissingOperand(op@),
            TransError::MissingLabel(op) => TransErrorView::MissingLabel(op@),
            TransError::MissingOpcode => TransErrorView::MissingOpcode,
            TransError::InvalidOpcode(tok) => TransErrorView::InvalidOpcode(tok@),
            TransError::Unimplemented(op) => TransErrorView::Unimplemented(op@),
        }
    }
}

/// The text that reports an error.
pub open spec fn message_spec(e: TransErrorView) -> Seq<char> {
    match e {
        TransErrorView::MissingOperand(op) => "missing loc: loc is required for opcode "@ + op,
        TransErrorView::MissingLabel(op) => "missing label: label is required for opcode "@ + op,
        TransErrorView::MissingOpcode => "missing opcode, only label provided"@,
        TransErrorView::InvalidOpcode(tok) => "invalid opcode: "@ + tok,
        TransErrorView::Unimplemented(op) => op + " is unimplemented"@,
    }
}

impl TransError {
    /// The text that reports this error.
    pub fn message(&self) -> (r: String)
        ensures
            r@ == message_spec(self@),
    {
        match self {
            TransError::MissingOperand(op) => {
                let mut r = String::from_str("missing loc: loc is required for opcode ");
                r.append(op.as_str());
                r
            },
            TransError::MissingLabel(op) => {
                let mut r = String::from_str("missing label: label is required for opcode ");
                r.append(op.as_str());
                r
            },
            TransError::MissingOpcode => String::from_str("missing opcode, only label provided"),
            TransError::InvalidOpcode(tok) => {
                let mut r = String::from_str("invalid opcode: ");
                r.append(tok.as_str());
                r
            },
            TransError::Unimplemented(op) => {
                let mut r = op.clone();
                r.append(" is unimplemented");
                r
            },
        }
    }
}

impl PartialEq for TransError {
    fn eq(&self, other: &TransError) -> (r: bool)
        ensures
            r == (self@ == other@),
    {
        match (self, other) {
            (TransError::MissingOperand(a), TransError::MissingOperand(b)) => str_eq(a.as_str(), b.as_str()),
            (TransError::MissingLabel(a), TransError::MissingLabel(b)) => str_eq(a.as_str(), b.as_str()),
            (TransError::MissingOpcode, TransError::MissingOpcode) => true,
            (TransError::InvalidOpcode(a), TransError::InvalidOpcode(b)) => str_eq(a.as_str(), b.as_str()),
            (TransError::Unimplemented(a), TransError::Unimplemented(b)) => str_eq(a.as_str(), b.as_str()),
            _ => false,
        }
    }
}

impl vstd::std_specs::cmp::PartialEqSpecImpl for TransError {
    open spec fn obeys_eq_spec() -> bool {
        true
    }

    open spec fn eq_spec(&self, other: &TransError) -> bool {
        self@ == other@
    }
}

} // verus!
