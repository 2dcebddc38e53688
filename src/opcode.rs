//! The instruction set: mnemonics and what each one asks for on its line.
use vstd::prelude::*;

use crate::text::str_eq;

verus! {

/// An instruction of ACSL assembly.
#[derive(Clone, Copy, Debug, PartialEq, Eq, Structural)]
pub enum Opcode {
    Load,
    Store,
    Add,
    Sub,
    Mult,
    Div,
    Be,
    Bg,
    Bl,
    Bu,
    Read,
    Print,
    End,
    Dc,
}

/// What an opcode needs around it on its line.
#[derive(Clone, Copy, Debug, PartialEq, Eq, Structural)]
pub enum OpcodeType {
    /// An operand after the opcode.
    LocRequired,
    /// A label before the opcode and an operand after it.
    LocAndLabelRequired,
    /// Nothing besides the opcode.
    NothingRequired,
    /// The token is not an opcode.
    NotAnOpcode,
}

/// The opcode that a mnemonic names, if any.
pub open spec fn opcode_spec(s: Seq<char>) -> Option<Opcode> {
    if s == "LOAD"@ {
        Some(Opcode::Load)
    } else if s == "STORE"@ {
        Some(Opcode::Store)
    } else if s == "ADD"@ {
        Some(Opcode::Add)
    } else if s == "SUB"@ {
        Some(Opcode::Sub)
    } else if s == "MULT"@ {
        Some(Opcode::Mult)
    } else if s == "DIV"@ {
        Some(Opcode::Div)
    } else if s == "BE"@ {
        Some(Opcode::Be)
    } else if s == "BG"@ {
        Some(Opcode::Bg)
    } else if s == "BL"@ {
        Some(Opcode::Bl)
    } else if s == "BU"@ {
        Some(Opcode::Bu)
    } else if s == "READ"@ {
        Some(Opcode::Read)
    } else if s == "PRINT"@ {
        Some(Opcode::Print)
    } else if s == "END"@ {
        Some(Opcode::End)
    } else if s == "DC"@ {
        Some(Opcode::Dc)
    } else {
        None
    }
}

/// The class of an opcode.
pub open spec fn class_of(op: Opcode) -> OpcodeType {
    match op {
        Opcode::End => OpcodeType::NothingRequired,
        Opcode::Dc => OpcodeType::LocAndLabelRequired,
        _ => OpcodeType::LocRequired,
    }
}

/// The class of any token: a token that names no opcode is `NotAnOpcode`.
pub open spec fn opcode_type_spec(s: Seq<char>) -> OpcodeType {
    match opcode_spec(s) {
        Some(op) => class_of(op),
        None => OpcodeType::NotAnOpcode,
    }
}

/// Looks up the opcode that a mnemonic names.
pub fn parse_opcode(s: &str) -> (r: Option<Opcode>)
    ensures
        r == opcode_spec(s@),
{
    if str_eq(s, "LOAD") {
        Some(Opcode::Load)
    } else if str_eq(s, "STORE") {
        Some(Opcode::Store)
    } else if str_eq(s, "ADD") {
        Some(Opcode::Add)
    } else if str_eq(s, "SUB") {
        Some(Opcode::Sub)
    } else if str_eq(s, "MULT") {
        Some(Opcode::Mult)
    } else if str_eq(s, "DIV") {
        Some(Opcode::Div)
    } else if str_eq(s, "BE") {
        Some(Opcode::Be)
    } else if str_eq(s, "BG") {
        Some(Opcode::Bg)
    } else if str_eq(s, "BL") {
        Some(Opcode::Bl)
    } else if str_eq(s, "BU") {
        Some(Opcode::Bu)
    } else if str_eq(s, "READ") {
        Some(Opcode::Read)
    } else if str_eq(s, "PRINT") {
        Some(Opcode::Print)
    } else if str_eq(s, "END") {
        Some(Opcode::End)
    } else if str_eq(s, "DC") {
        Some(Opcode::Dc)
    } else {
        None
    }
}

impl Opcode {
    /// The class of this opcode.
    pub fn class(self) -> (r: OpcodeType)
        ensures
            r == class_of(self),
    {
        match self {
            Opcode::End => OpcodeType::NothingRequired,
            Opcode::Dc => OpcodeType::LocAndLabelRequired,
            _ => OpcodeType::LocRequired,
        }
    }
}

/// Classifies a token. Every string has a class.
pub fn opcode_type(potential_opcode: &str) -> (r: OpcodeType)
    ensures
        r == opcode_type_spec(potential_opcode@),
{
    match parse_opcode(potential_opcode) {
        Some(op) => op.class(),
        None => OpcodeType::NotAnOpcode,
    }
}

} // verus!
