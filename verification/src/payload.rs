//! The fixed layouts of the four pipeline registers and of the two kinds of
//! signal that travel backward on the data bus.
//!
//! Every record has a byte image of fixed length. A payload shorter than the
//! image is a bubble and reads as the record whose fields are all zero.

use crate::pipeline_stage::PipelineData;
use crate::risc_word::{le_u32, lemma_word_bytes_round_trip, push_word, word_bytes, zero_bytes};
use vstd::prelude::*;

verus! {

/// Length of the fetch-to-decode register.
pub const IF_ID_SIZE: usize = 8;

/// Length of the decode-to-execute register.
pub const ID_EX_SIZE: usize = 25;

/// Length of the execute-to-memory register.
pub const EX_MEM_SIZE: usize = 18;

/// Length of the memory-to-writeback register.
pub const MEM_WB_SIZE: usize = 11;

/// Length of a branch resolution on the bus.
pub const BRANCH_SIGNAL_SIZE: usize = 6;

/// Length of a forwarded result on the bus.
pub const FORWARD_SIZE: usize = 6;

/// Fetch to decode: the encoded instruction and the address it was read from.
#[derive(Debug, Clone, Copy, PartialEq, Eq, Structural)]
pub struct IfId {
    pub instruction: u32,
    pub pc: u32,
}

/// Decode to execute.
#[derive(Debug, Clone, Copy, PartialEq, Eq, Structural)]
pub struct IdEx {
    pub opcode: u8,
    pub func3: u8,
    pub func7: u8,
    pub reg_write: u8,
    pub mem_rw: u8,
    pub rd: u8,
    pub branch_or_jump: u8,
    pub imm: u32,
    pub rs1: u32,
    pub rs2: u32,
    pub pc: u32,
    pub rs1_idx: u8,
    pub rs2_idx: u8,
}

/// Execute to memory.
#[derive(Debug, Clone, Copy, PartialEq, Eq, Structural)]
pub struct ExMem {
    pub reg_write: u8,
    pub mem_rw: u8,
    pub rd: u8,
    pub func3: u8,
    pub alu_out: u32,
    pub rs2: u32,
    pub branch_or_jump: u8,
    pub take_jump: u8,
    pub pc: u32,
}

/// Memory to writeback.
#[derive(Debug, Clone, Copy, PartialEq, Eq, Structural)]
pub struct MemWb {
    pub reg_write: u8,
    pub reg_src: u8,
    pub rd: u8,
    pub alu_out: u32,
    pub mem_value: u32,
}

/// A branch resolution, sent backward by the memory stage.
#[derive(Debug, Clone, Copy, PartialEq, Eq, Structural)]
pub struct BranchSignal {
    pub branch_or_jump: u8,
    pub take_jump: u8,
    pub pc: u32,
}

/// A result on its way to the register file, sent backward for forwarding.
#[derive(Debug, Clone, Copy, PartialEq, Eq, Structural)]
pub struct Forward {
    pub reg_write: u8,
    pub rd: u8,
    pub value: u32,
}

impl IfId {
    /// The record of a bubble.
    pub open spec fn bubble() -> Self {
        IfId { instruction: 0, pc: 0 }
    }

    /// The record that a payload stands for.
    pub open spec fn from_bytes(s: Seq<u8>) -> Self {
        if s.len() < IF_ID_SIZE {
            Self::bubble()
        } else {
            IfId { instruction: le_u32(s, 0), pc: le_u32(s, 4) }
        }
    }

    /// The byte image of the record.
    pub open spec fn to_bytes(self) -> Seq<u8> {
        word_bytes(self.instruction) + word_bytes(self.pc)
    }

    /// Reads the record out of a payload.
    pub fn parse(p: &PipelineData) -> (r: Self)
        ensures
            r == Self::from_bytes(p@),
    {
        if p.size() < IF_ID_SIZE {
            IfId { instruction: 0, pc: 0 }
        } else {
            IfId { instruction: p.get_u32(0), pc: p.get_u32(4) }
        }
    }

    /// Writes the record as a payload.
    pub fn encode(&self) -> (r: PipelineData)
        ensures
            r@ == self.to_bytes(),
    {
        let mut out: Vec<u8> = Vec::with_capacity(IF_ID_SIZE);
        push_word(&mut out, self.instruction);
        push_word(&mut out, self.pc);
        assert(out@ =~= self.to_bytes());
        PipelineData(out)
    }

    /// The image has the length of the register, and reading it gives the
    /// record back.
    pub proof fn lemma_round_trip(self)
        ensures
            self.to_bytes().len() == IF_ID_SIZE,
            Self::from_bytes(self.to_bytes()) == self,
    {
        lemma_word_bytes_round_trip(self.instruction);
        lemma_word_bytes_round_trip(self.pc);
    }
}

impl IdEx {
    /// The record of a bubble.
    pub open spec fn bubble() -> Self {
        IdEx {
            opcode: 0,
            func3: 0,
            func7: 0,
            reg_write: 0,
            mem_rw: 0,
            rd: 0,
            branch_or_jump: 0,
            imm: 0,
            rs1: 0,
            rs2: 0,
            pc: 0,
            rs1_idx: 0,
            rs2_idx: 0,
        }
    }

    /// The record that a payload stands for.
    pub open spec fn from_bytes(s: Seq<u8>) -> Self {
        if s.len() < ID_EX_SIZE {
            Self::bubble()
        } else {
            IdEx {
                opcode: s[0],
                func3: s[1],
                func7: s[2],
                reg_write: s[3],
                mem_rw: s[4],
                rd: s[5],
                branch_or_jump: s[6],
                imm: le_u32(s, 7),
                rs1: le_u32(s, 11),
                rs2: le_u32(s, 15),
                pc: le_u32(s, 19),
                rs1_idx: s[23],
                rs2_idx: s[24],
            }
        }
    }

    /// The byte image of the record.
    pub open spec fn to_bytes(self) -> Seq<u8> {
        seq![
            self.opcode,
            self.func3,
            self.func7,
            self.reg_write,
            self.mem_rw,
            self.rd,
            self.branch_or_jump,
        ] + word_bytes(self.imm) + word_bytes(self.rs1) + word_bytes(self.rs2) + word_bytes(
            self.pc,
        ) + seq![self.rs1_idx, self.rs2_idx]
    }

    /// Reads the record out of a payload.
    pub fn parse(p: &PipelineData) -> (r: Self)
        ensures
            r == Self::from_bytes(p@),
    {
        if p.size() < ID_EX_SIZE {
            IdEx {
                opcode: 0,
                func3: 0,
                func7: 0,
                reg_write: 0,
                mem_rw: 0,
                rd: 0,
                branch_or_jump: 0,
                imm: 0,
                rs1: 0,
                rs2: 0,
                pc: 0,
                rs1_idx: 0,
                rs2_idx: 0,
            }
        } else {
            IdEx {
                opcode: p.get_u8(0),
                func3: p.get_u8(1),
                func7: p.get_u8(2),
                reg_write: p.get_u8(3),
                mem_rw: p.get_u8(4),
                rd: p.get_u8(5),
                branch_or_jump: p.get_u8(6),
                imm: p.get_u32(7),
                rs1: p.get_u32(11),
                rs2: p.get_u32(15),
                pc: p.get_u32(19),
                rs1_idx: p.get_u8(23),
                rs2_idx: p.get_u8(24),
            }
        }
    }

    /// Writes the record as a payload.
    pub fn encode(&self) -> (r: PipelineData)
        ensures
            r@ == self.to_bytes(),
    {
        let mut out: Vec<u8> = Vec::with_capacity(ID_EX_SIZE);
        out.push(self.opcode);
        out.push(self.func3);
        out.push(self.func7);
        out.push(self.reg_write);
        out.push(self.mem_rw);
        out.push(self.rd);
        out.push(self.branch_or_jump);
        push_word(&mut out, self.imm);
        push_word(&mut out, self.rs1);
        push_word(&mut out, self.rs2);
        push_word(&mut out, self.pc);
        out.push(self.rs1_idx);
        out.push(self.rs2_idx);
        assert(out@ =~= self.to_bytes());
        PipelineData(out)
    }

    /// The image has the length of the register, and reading it gives the
    /// record back.
    pub proof fn lemma_round_trip(self)
        ensures
            self.to_bytes().len() == ID_EX_SIZE,
            Self::from_bytes(self.to_bytes()) == self,
    {
        lemma_word_bytes_round_trip(self.imm);
        lemma_word_bytes_round_trip(self.rs1);
        lemma_word_bytes_round_trip(self.rs2);
        lemma_word_bytes_round_trip(self.pc);
    }
}

impl ExMem {
    /// The record of a bubble.
    pub open spec fn bubble() -> Self {
        ExMem {
            reg_write: 0,
            mem_rw: 0,
            rd: 0,
            func3: 0,
            alu_out: 0,
            rs2: 0,
            branch_or_jump: 0,
            take_jump: 0,
            pc: 0,
        }
    }

    /// The record that a payload stands for.
    pub open spec fn from_bytes(s: Seq<u8>) -> Self {
        if s.len() < EX_MEM_SIZE {
            Self::bubble()
        } else {
            ExMem {
                reg_write: s[0],
                mem_rw: s[1],
                rd: s[2],
                func3: s[3],
                alu_out: le_u32(s, 4),
                rs2: le_u32(s, 8),
                branch_or_jump: s[12],
                take_jump: s[13],
                pc: le_u32(s, 14),
            }
        }
    }

    /// The byte image of the record.
    pub open spec fn to_bytes(self) -> Seq<u8> {
        seq![self.reg_write, self.mem_rw, self.rd, self.func3] + word_bytes(self.alu_out)
            + word_bytes(self.rs2) + seq![self.branch_or_jump, self.take_jump] + word_bytes(
            self.pc,
        )
    }

    /// Reads the record out of a payload.
    pub fn parse(p: &PipelineData) -> (r: Self)
        ensures
            r == Self::from_bytes(p@),
    {
        if p.size() < EX_MEM_SIZE {
            ExMem {
                reg_write: 0,
                mem_rw: 0,
                rd: 0,
                func3: 0,
                alu_out: 0,
                rs2: 0,
                branch_or_jump: 0,
                take_jump: 0,
                pc: 0,
            }
        } else {
            ExMem {
                reg_write: p.get_u8(0),
                mem_rw: p.get_u8(1),
                rd: p.get_u8(2),
                func3: p.get_u8(3),
                alu_out: p.get_u32(4),
                rs2: p.get_u32(8),
                branch_or_jump: p.get_u8(12),
                take_jump: p.get_u8(13),
                pc: p.get_u32(14),
            }
        }
    }

    /// Writes the record as a payload.
    pub fn encode(&self) -> (r: PipelineData)
        ensures
            r@ == self.to_bytes(),
    {
        let mut out: Vec<u8> = Vec::with_capacity(EX_MEM_SIZE);
        out.push(self.reg_write);
        out.push(self.mem_rw);
        out.push(self.rd);
        out.push(self.func3);
        push_word(&mut out, self.alu_out);
        push_word(&mut out, self.rs2);
        out.push(self.branch_or_jump);
        out.push(self.take_jump);
        push_word(&mut out, self.pc);
        assert(out@ =~= self.to_bytes());
        PipelineData(out)
    }

    /// The image has the length of the register, and reading it gives the
    /// record back.
    pub proof fn lemma_round_trip(self)
        ensures
            self.to_bytes().len() == EX_MEM_SIZE,
            Self::from_bytes(self.to_bytes()) == self,
    {
        lemma_word_bytes_round_trip(self.alu_out);
        lemma_word_bytes_round_trip(self.rs2);
        lemma_word_bytes_round_trip(self.pc);
    }
}

impl MemWb {
    /// The record of a bubble.
    pub open spec fn bubble() -> Self {
        MemWb { reg_write: 0, reg_src: 0, rd: 0, alu_out: 0, mem_value: 0 }
    }

    /// The record that a payload stands for.
    pub open spec fn from_bytes(s: Seq<u8>) -> Self {
        if s.len() < MEM_WB_SIZE {
            Self::bubble()
        } else {
            MemWb {
                reg_write: s[0],
                reg_src: s[1],
                rd: s[2],
                alu_out: le_u32(s, 3),
                mem_value: le_u32(s, 7),
            }
        }
    }

    /// The byte image of the record.
    pub open spec fn to_bytes(self) -> Seq<u8> {
        seq![self.reg_write, self.reg_src, self.rd] + word_bytes(self.alu_out) + word_bytes(
            self.mem_value,
        )
    }

    /// Reads the record out of a payload.
    pub fn parse(p: &PipelineData) -> (r: Self)
        ensures
            r == Self::from_bytes(p@),
    {
        if p.size() < MEM_WB_SIZE {
            MemWb { reg_write: 0, reg_src: 0, rd: 0, alu_out: 0, mem_value: 0 }
        } else {
            MemWb {
                reg_write: p.get_u8(0),
                reg_src: p.get_u8(1),
                rd: p.get_u8(2),
                alu_out: p.get_u32(3),
                mem_value: p.get_u32(7),
            }
        }
    }

    /// Writes the record as a payload.
    pub fn encode(&self) -> (r: PipelineData)
        ensures
            r@ == self.to_bytes(),
    {
        let mut out: Vec<u8> = Vec::with_capacity(MEM_WB_SIZE);
        out.push(self.reg_write);
        out.push(self.reg_src);
        out.push(self.rd);
        push_word(&mut out, self.alu_out);
        push_word(&mut out, self.mem_value);
        assert(out@ =~= self.to_bytes());
        PipelineData(out)
    }

    /// The image has the length of the register, and reading it gives the
    /// record back.
    pub proof fn lemma_round_trip(self)
        ensures
            self.to_bytes().len() == MEM_WB_SIZE,
            Self::from_bytes(self.to_bytes()) == self,
    {
        lemma_word_bytes_round_trip(self.alu_out);
        lemma_word_bytes_round_trip(self.mem_value);
    }
}

impl BranchSignal {
    /// The signal of a cycle in which nothing was resolved.
    pub open spec fn quiet() -> Self {
        BranchSignal { branch_or_jump: 0, take_jump: 0, pc: 0 }
    }

    /// The signal that a payload stands for.
    pub open spec fn from_bytes(s: Seq<u8>) -> Self {
        if s.len() < BRANCH_SIGNAL_SIZE {
            Self::quiet()
        } else {
            BranchSignal { branch_or_jump: s[0], take_jump: s[1], pc: le_u32(s, 2) }
        }
    }

    /// The byte image of the signal.
    pub open spec fn to_bytes(self) -> Seq<u8> {
        seq![self.branch_or_jump, self.take_jump] + word_bytes(self.pc)
    }

    /// Whether the signal redirects the fetch: the bitwise AND of the two
    /// flags is one.
    pub open spec fn spec_taken(self) -> bool {
        (self.branch_or_jump & self.take_jump) == 1
    }

    /// A signal with a flag that is zero is not taken, and one with both
    /// flags one is.
    pub proof fn lemma_taken_by_flags(self)
        ensures
            self.branch_or_jump == 0 || self.take_jump == 0 ==> !self.taken(),
            self.branch_or_jump == 1 && self.take_jump == 1 ==> self.taken(),
    {
        let b = self.branch_or_jump;
        let t = self.take_jump;
        assert((b == 0 || t == 0 ==> (b & t) != 1) && (b == 1 && t == 1 ==> (b & t) == 1))
            by (bit_vector);
    }

    /// Whether the signal redirects the fetch.
    #[verifier::when_used_as_spec(spec_taken)]
    pub fn taken(self) -> (r: bool)
        ensures
            r == self.spec_taken(),
    {
        (self.branch_or_jump & self.take_jump) == 1
    }

    /// Reads the signal out of a payload.
    pub fn parse(p: &PipelineData) -> (r: Self)
        ensures
            r == Self::from_bytes(p@),
    {
        if p.size() < BRANCH_SIGNAL_SIZE {
            BranchSignal { branch_or_jump: 0, take_jump: 0, pc: 0 }
        } else {
            BranchSignal {
                branch_or_jump: p.get_u8(0),
                take_jump: p.get_u8(1),
                pc: p.get_u32(2),
            }
        }
    }

    /// Writes the signal as a payload.
    pub fn encode(&self) -> (r: PipelineData)
        ensures
            r@ == self.to_bytes(),
    {
        let mut out: Vec<u8> = Vec::with_capacity(BRANCH_SIGNAL_SIZE);
        out.push(self.branch_or_jump);
        out.push(self.take_jump);
        push_word(&mut out, self.pc);
        assert(out@ =~= self.to_bytes());
        PipelineData(out)
    }

    /// The image has the length of the signal, and reading it gives the signal
    /// back.
    pub proof fn lemma_round_trip(self)
        ensures
            self.to_bytes().len() == BRANCH_SIGNAL_SIZE,
            Self::from_bytes(self.to_bytes()) == self,
    {
        lemma_word_bytes_round_trip(self.pc);
    }
}

impl Forward {
    /// The signal of a cycle in which nothing is written.
    pub open spec fn quiet() -> Self {
        Forward { reg_write: 0, rd: 0, value: 0 }
    }

    /// The signal that a payload stands for.
    pub open spec fn from_bytes(s: Seq<u8>) -> Self {
        if s.len() < FORWARD_SIZE {
            Self::quiet()
        } else {
            Forward { reg_write: s[0], rd: s[1], value: le_u32(s, 2) }
        }
    }

    /// The byte image of the signal.
    pub open spec fn to_bytes(self) -> Seq<u8> {
        seq![self.reg_write, self.rd] + word_bytes(self.value)
    }

    /// The register index that the signal names: the low five bits of `rd`.
    pub open spec fn spec_target(self) -> u8 {
        self.rd % 32
    }

    /// The register index that the signal names.
    #[verifier::when_used_as_spec(spec_target)]
    pub fn target(self) -> (r: u8)
        ensures
            r == self.spec_target(),
            r < 32,
    {
        self.rd % 32
    }

    /// Whether the signal carries a value for register `index`.
    pub open spec fn spec_feeds(self, index: u8) -> bool {
        self.reg_write == 1 && self.spec_target() == index
    }

    /// Whether the signal carries a value for register `index`.
    #[verifier::when_used_as_spec(spec_feeds)]
    pub fn feeds(self, index: u8) -> (r: bool)
        ensures
            r == self.spec_feeds(index),
    {
        self.reg_write == 1 && self.target() == index
    }

    /// Reads the signal out of a payload.
    pub fn parse(p: &PipelineData) -> (r: Self)
        ensures
            r == Self::from_bytes(p@),
    {
        if p.size() < FORWARD_SIZE {
            Forward { reg_write: 0, rd: 0, value: 0 }
        } else {
            Forward { reg_write: p.get_u8(0), rd: p.get_u8(1), value: p.get_u32(2) }
        }
    }

    /// Writes the signal as a payload.
    pub fn encode(&self) -> (r: PipelineData)
        ensures
            r@ == self.to_bytes(),
    {
        let mut out: Vec<u8> = Vec::with_capacity(FORWARD_SIZE);
        out.push(self.reg_write);
        out.push(self.rd);
        push_word(&mut out, self.value);
        assert(out@ =~= self.to_bytes());
        PipelineData(out)
    }

    /// The image has the length of the signal, and reading it gives the signal
    /// back.
    pub proof fn lemma_round_trip(self)
        ensures
            self.to_bytes().len() == FORWARD_SIZE,
            Self::from_bytes(self.to_bytes()) == self,
    {
        lemma_word_bytes_round_trip(self.value);
    }
}

/// A payload of zero bytes, of any length, reads as a bubble in every layout.
pub proof fn lemma_zero_payload_is_bubble(n: nat)
    ensures
        IfId::from_bytes(zero_bytes(n)) == IfId::bubble(),
        IdEx::from_bytes(zero_bytes(n)) == IdEx::bubble(),
        ExMem::from_bytes(zero_bytes(n)) == ExMem::bubble(),
        MemWb::from_bytes(zero_bytes(n)) == MemWb::bubble(),
        BranchSignal::from_bytes(zero_bytes(n)) == BranchSignal::quiet(),
        Forward::from_bytes(zero_bytes(n)) == Forward::quiet(),
{
}

} // verus!
