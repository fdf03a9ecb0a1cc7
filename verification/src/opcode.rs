//! Instruction identifiers.
//!
//! Every instruction position yields exactly one of two disjoint tags: a
//! basic [`Opcode`], executed by the machine alone, or an
//! [`ExternalOpcode`], whose execution needs the host environment.  Each tag
//! renders to a stable, human-readable name so that a trace can be consumed
//! by tools without knowledge of the byte encoding.

use vstd::prelude::*;

verus! {

/// A basic instruction, carried as its encoded byte.
#[derive(Clone, Copy, Debug, PartialEq, Eq, Structural)]
pub struct Opcode(pub u8);

/// An instruction that requires host intervention, carried as its encoded
/// byte.
#[derive(Clone, Copy, Debug, PartialEq, Eq, Structural)]
pub struct ExternalOpcode(pub u8);

/// The tag recorded for one executed instruction: exactly one of the two
/// kinds, never both, never neither.
#[derive(Clone, Copy, Debug, PartialEq, Eq, Structural)]
pub enum OpId {
    /// A basic instruction.
    Basic(Opcode),
    /// A host-assisted instruction.
    External(ExternalOpcode),
}

/// The name under which a basic instruction byte is rendered.
pub open spec fn opcode_name_spec(c: u8) -> Seq<char> {
    if c == 0x00 { "STOP"@ }
    else if c == 0x01 { "ADD"@ }
    else if c == 0x02 { "MUL"@ }
    else if c == 0x03 { "SUB"@ }
    else if c == 0x04 { "DIV"@ }
    else if c == 0x06 { "MOD"@ }
    else if c == 0x0a { "EXP"@ }
    else if c == 0x10 { "LT"@ }
    else if c == 0x11 { "GT"@ }
    else if c == 0x14 { "EQ"@ }
    else if c == 0x15 { "ISZERO"@ }
    else if c == 0x16 { "AND"@ }
    else if c == 0x17 { "OR"@ }
    else if c == 0x18 { "XOR"@ }
    else if c == 0x19 { "NOT"@ }
    else if c == 0x35 { "CALLDATALOAD"@ }
    else if c == 0x36 { "CALLDATASIZE"@ }
    else if c == 0x38 { "CODESIZE"@ }
    else if c == 0x51 { "MLOAD"@ }
    else if c == 0x52 { "MSTORE"@ }
    else if c == 0x56 { "JUMP"@ }
    else if c == 0x57 { "JUMPI"@ }
    else if c == 0x58 { "PC"@ }
    else if c == 0x59 { "MSIZE"@ }
    else if c == 0x5b { "JUMPDEST"@ }
    else if c == 0x60 { "PUSH1"@ }
    else if c == 0x80 { "DUP1"@ }
    else if c == 0x90 { "SWAP1"@ }
    else if c == 0xf3 { "RETURN"@ }
    else if c == 0xfd { "REVERT"@ }
    else if c == 0xfe { "INVALID"@ }
    else { "UNKNOWN"@ }
}

/// The name under which a host-assisted instruction byte is rendered.
pub open spec fn external_opcode_name_spec(c: u8) -> Seq<char> {
    if c == 0x20 { "SHA3"@ }
    else if c == 0x30 { "ADDRESS"@ }
    else if c == 0x31 { "BALANCE"@ }
    else if c == 0x32 { "ORIGIN"@ }
    else if c == 0x33 { "CALLER"@ }
    else if c == 0x34 { "CALLVALUE"@ }
    else if c == 0x3a { "GASPRICE"@ }
    else if c == 0x3b { "EXTCODESIZE"@ }
    else if c == 0x40 { "BLOCKHASH"@ }
    else if c == 0x41 { "COINBASE"@ }
    else if c == 0x42 { "TIMESTAMP"@ }
    else if c == 0x43 { "NUMBER"@ }
    else if c == 0x44 { "DIFFICULTY"@ }
    else if c == 0x45 { "GASLIMIT"@ }
    else if c == 0x54 { "SLOAD"@ }
    else if c == 0x55 { "SSTORE"@ }
    else if c == 0x5a { "GAS"@ }
    else if c == 0xa0 { "LOG0"@ }
    else if c == 0xf0 { "CREATE"@ }
    else if c == 0xf1 { "CALL"@ }
    else if c == 0xf2 { "CALLCODE"@ }
    else if c == 0xf4 { "DELEGATECALL"@ }
    else if c == 0xfa { "STATICCALL"@ }
    else if c == 0xff { "SUICIDE"@ }
    else { "UNKNOWN"@ }
}

/// The name under which an instruction tag is rendered.
pub open spec fn op_name_spec(op: OpId) -> Seq<char> {
    match op {
        OpId::Basic(o) => opcode_name_spec(o.0),
        OpId::External(o) => external_opcode_name_spec(o.0),
    }
}

impl Opcode {
    /// The stable, human-readable name of this instruction.
    pub fn name(&self) -> (r: &'static str)
        ensures
            r@ == opcode_name_spec(self.0),
    {
        match self.0 {
            0x00 => "STOP",
            0x01 => "ADD",
            0x02 => "MUL",
            0x03 => "SUB",
            0x04 => "DIV",
            0x06 => "MOD",
            0x0a => "EXP",
            0x10 => "LT",
            0x11 => "GT",
            0x14 => "EQ",
            0x15 => "ISZERO",
            0x16 => "AND",
            0x17 => "OR",
            0x18 => "XOR",
            0x19 => "NOT",
            0x35 => "CALLDATALOAD",
            0x36 => "CALLDATASIZE",
            0x38 => "CODESIZE",
            0x51 => "MLOAD",
            0x52 => "MSTORE",
            0x56 => "JUMP",
            0x57 => "JUMPI",
            0x58 => "PC",
            0x59 => "MSIZE",
            0x5b => "JUMPDEST",
            0x60 => "PUSH1",
            0x80 => "DUP1",
            0x90 => "SWAP1",
            0xf3 => "RETURN",
            0xfd => "REVERT",
            0xfe => "INVALID",
            _ => "UNKNOWN",
        }
    }
}

impl ExternalOpcode {
    /// The stable, human-readable name of this instruction.
    pub fn name(&self) -> (r: &'static str)
        ensures
            r@ == external_opcode_name_spec(self.0),
    {
        match self.0 {
            0x20 => "SHA3",
            0x30 => "ADDRESS",
            0x31 => "BALANCE",
            0x32 => "ORIGIN",
            0x33 => "CALLER",
            0x34 => "CALLVALUE",
            0x3a => "GASPRICE",
            0x3b => "EXTCODESIZE",
            0x40 => "BLOCKHASH",
            0x41 => "COINBASE",
            0x42 => "TIMESTAMP",
            0x43 => "NUMBER",
            0x44 => "DIFFICULTY",
            0x45 => "GASLIMIT",
            0x54 => "SLOAD",
            0x55 => "SSTORE",
            0x5a => "GAS",
            0xa0 => "LOG0",
            0xf0 => "CREATE",
            0xf1 => "CALL",
            0xf2 => "CALLCODE",
            0xf4 => "DELEGATECALL",
            0xfa => "STATICCALL",
            0xff => "SUICIDE",
            _ => "UNKNOWN",
        }
    }
}

impl OpId {
    /// The stable, human-readable name of this instruction tag.
    pub fn name(&self) -> (r: &'static str)
        ensures
            r@ == op_name_spec(*self),
    {
        match self {
            OpId::Basic(o) => o.name(),
            OpId::External(o) => o.name(),
        }
    }
}

} // verus!
