//! Status codes and disassembly styles of the core's instruction decoder.

use vstd::prelude::*;

verus! {

/// Outcome of handing the core an instruction to decode.
#[derive(Copy, Clone, Debug, Eq, Hash, PartialEq, Structural)]
pub enum Opcode {
    Error,
    Inserted,
}

impl Opcode {
    pub open spec fn code(self) -> u32 {
        match self {
            Opcode::Error => 0,
            Opcode::Inserted => 1,
        }
    }

    /// Decodes the core's code; `None` for a code the protocol does not
    /// define.
    pub fn from_code(code: u32) -> (r: Option<Opcode>)
        ensures
            r is None <==> code > 1,
            r matches Some(v) ==> v.code() == code,
    {
        match code {
            0 => Some(Opcode::Error),
            1 => Some(Opcode::Inserted),
            _ => None,
        }
    }
}

/// Syntax of disassembled instructions.
#[derive(Copy, Clone, Debug, Eq, Hash, PartialEq, Structural)]
pub enum DisasmStyle {
    Intel,
    Gas,
}

impl DisasmStyle {
    pub open spec fn code(self) -> u32 {
        match self {
            DisasmStyle::Intel => 0,
            DisasmStyle::Gas => 1,
        }
    }

    /// Decodes the core's code; `None` for a code the protocol does not
    /// define.
    pub fn from_code(code: u32) -> (r: Option<DisasmStyle>)
        ensures
            r is None <==> code > 1,
            r matches Some(v) ==> v.code() == code,
    {
        match code {
            0 => Some(DisasmStyle::Intel),
            1 => Some(DisasmStyle::Gas),
            _ => None,
        }
    }
}

} // verus!
