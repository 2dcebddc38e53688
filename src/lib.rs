//! Translation of ACSL assembly, one instruction per line, into C statements.
//!
//! A pass reads the lines in order, threading a symbol table that binds variable
//! names to memory slots. Each line yields one statement, or an error that ends
//! the pass.
use vstd::prelude::*;

pub mod error;
pub mod opcode;
pub mod symbols;
pub mod text;
pub mod translate;

pub use error::TransError;
pub use opcode::{opcode_type, parse_opcode, Opcode, OpcodeType};
pub use symbols::{req_mem, resolve_operand, SymbolTable};
pub use translate::{process_comps, trans, translate_line, translate_lines, LineError, Translation};

verus! {

} // verus!
