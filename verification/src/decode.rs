//! Decode and issue: instruction fields, immediates and control signals.

use crate::cache::Cache;
use crate::mcu_core::{ID_STAGE, MEM_STAGE, WB_STAGE};
use crate::execute::signed;
use crate::memory_management_unit::MemoryDevice;
use crate::payload::{BranchSignal, Forward, IdEx, IfId};
use crate::pipeline_stage::{outcome_view, PipelineData, StageError};
use crate::risc_soc::{committed, RiscCore};
use crate::risc_word::RiscWord;
use vstd::prelude::*;

verus! {

/// Load upper immediate.
pub const OP_LUI: u8 = 0b0110111;

/// Add upper immediate to the program counter.
pub const OP_AUIPC: u8 = 0b0010111;

/// Jump and link.
pub const OP_JAL: u8 = 0b1101111;

/// Jump and link through a register.
pub const OP_JALR: u8 = 0b1100111;

/// Conditional branches.
pub const OP_BRANCH: u8 = 0b1100011;

/// Loads.
pub const OP_LOAD: u8 = 0b0000011;

/// Stores.
pub const OP_STORE: u8 = 0b0100011;

/// Register-register arithmetic.
pub const OP_ALU: u8 = 0b0110011;

/// Register-immediate arithmetic.
pub const OP_ALUI: u8 = 0b0010011;

/// Memory ordering; not executed by this core.
pub const OP_FENCE: u8 = 0b0001111;

/// Environment calls and control registers; not executed by this core.
pub const OP_SYSTEM: u8 = 0b1110011;

/// Bits 6:0 of an instruction.
pub open spec fn opcode_of(i: u32) -> u8 {
    (i % 0x80) as u8
}

/// Bits 11:7 of an instruction: the destination register.
pub open spec fn rd_of(i: u32) -> u8 {
    ((i / 0x80) % 0x20) as u8
}

/// Bits 14:12 of an instruction.
pub open spec fn func3_of(i: u32) -> u8 {
    ((i / 0x1000) % 0x8) as u8
}

/// Bits 19:15 of an instruction: the first source register.
pub open spec fn rs1_of(i: u32) -> u8 {
    ((i / 0x8000) % 0x20) as u8
}

/// Bits 24:20 of an instruction: the second source register.
pub open spec fn rs2_of(i: u32) -> u8 {
    ((i / 0x10_0000) % 0x20) as u8
}

/// Bits 31:25 of an instruction.
pub open spec fn func7_of(i: u32) -> u8 {
    (i / 0x200_0000) as u8
}

/// The word that stands for a two's-complement field: `field` itself where
/// it is below `sign`, the weight of the sign bit of the field, and `field`
/// less twice that weight, modulo 2^32, where it is not.
pub open spec fn sign_extend(field: int, sign: int) -> RiscWord {
    if field < sign {
        field as RiscWord
    } else {
        (field - 2 * sign + 0x1_0000_0000) as RiscWord
    }
}

/// Immediate of the I format: bits 31:20, sign-extended.
pub open spec fn imm_i(i: u32) -> RiscWord {
    sign_extend(i as int / 0x10_0000, 0x800)
}

/// Immediate of the S format: bits 31:25 over bits 11:7, sign-extended.
pub open spec fn imm_s(i: u32) -> RiscWord {
    sign_extend((i as int / 0x200_0000) * 0x20 + (i as int / 0x80) % 0x20, 0x800)
}

/// Immediate of the B format: bit 12 from bit 31, bit 11 from bit 7, bits
/// 10:5 from bits 30:25, bits 4:1 from bits 11:8, bit 0 clear; sign-extended.
pub open spec fn imm_b(i: u32) -> RiscWord {
    sign_extend(
        (i as int / 0x8000_0000) * 0x1000 + ((i as int / 0x80) % 2) * 0x800 + ((i as int
            / 0x200_0000) % 0x40) * 0x20 + ((i as int / 0x100) % 0x10) * 2,
        0x1000,
    )
}

/// Immediate of the J format: bit 20 from bit 31, bits 19:12 in place, bit 11
/// from bit 20, bits 10:1 from bits 30:21, bit 0 clear; sign-extended.
pub open spec fn imm_j(i: u32) -> RiscWord {
    sign_extend(
        (i as int / 0x8000_0000) * 0x10_0000 + ((i as int / 0x1000) % 0x100) * 0x1000 + ((i as int
            / 0x10_0000) % 2) * 0x800 + ((i as int / 0x20_0000) % 0x400) * 2,
        0x10_0000,
    )
}

/// The field that the U format hands to execute: the low twelve bits of the
/// instruction. Execute shifts it left by twelve.
pub open spec fn imm_u(i: u32) -> RiscWord {
    i % 0x1000
}

/// Whether this core executes instructions of the opcode.
pub open spec fn spec_supported(opcode: u8) -> bool {
    opcode == OP_ALUI || opcode == OP_LOAD || opcode == OP_JALR || opcode == OP_STORE || opcode
        == OP_BRANCH || opcode == OP_JAL || opcode == OP_AUIPC || opcode == OP_LUI || opcode
        == OP_ALU
}

/// The immediate of an instruction, by the format of its opcode. Zero where
/// the format has none or the opcode is not supported.
pub open spec fn immediate_of(i: u32) -> RiscWord {
    let opcode = opcode_of(i);
    if opcode == OP_ALUI || opcode == OP_LOAD || opcode == OP_JALR {
        imm_i(i)
    } else if opcode == OP_STORE {
        imm_s(i)
    } else if opcode == OP_BRANCH {
        imm_b(i)
    } else if opcode == OP_JAL {
        imm_j(i)
    } else if opcode == OP_AUIPC || opcode == OP_LUI {
        imm_u(i)
    } else {
        0
    }
}

/// One if instructions of the opcode write a register.
pub open spec fn reg_write_of(opcode: u8) -> u8 {
    if opcode == OP_ALUI || opcode == OP_LOAD || opcode == OP_JALR || opcode == OP_ALU || opcode
        == OP_LUI || opcode == OP_AUIPC || opcode == OP_JAL {
        1
    } else {
        0
    }
}

/// One for a load, three for a store, zero otherwise.
pub open spec fn mem_rw_of(opcode: u8) -> u8 {
    if opcode == OP_LOAD {
        1
    } else if opcode == OP_STORE {
        3
    } else {
        0
    }
}

/// One if instructions of the opcode may redirect the fetch.
pub open spec fn branch_or_jump_of(opcode: u8) -> u8 {
    if opcode == OP_BRANCH || opcode == OP_JAL || opcode == OP_JALR {
        1
    } else {
        0
    }
}

/// The record that decode issues for an instruction of a supported opcode,
/// given the values of its two source registers.
pub open spec fn issue(f: IfId, rs1: RiscWord, rs2: RiscWord) -> IdEx {
    let i = f.instruction;
    IdEx {
        opcode: opcode_of(i),
        func3: func3_of(i),
        func7: func7_of(i),
        reg_write: reg_write_of(opcode_of(i)),
        mem_rw: mem_rw_of(opcode_of(i)),
        rd: rd_of(i),
        branch_or_jump: branch_or_jump_of(opcode_of(i)),
        imm: immediate_of(i),
        rs1: rs1,
        rs2: rs2,
        pc: f.pc,
        rs1_idx: rs1_of(i),
        rs2_idx: rs2_of(i),
    }
}

/// What the decode stage emits. A taken branch in the memory stage squashes
/// the instruction, and an all-zero instruction word is a bubble: both give
/// the all-zero record. An opcode that this core does not execute gives
/// nothing.
pub open spec fn decode_spec(f: IfId, branch: BranchSignal, rs1: RiscWord, rs2: RiscWord) -> Option<
    IdEx,
> {
    if branch.taken() || f.instruction == 0 {
        Some(IdEx::bubble())
    } else if spec_supported(opcode_of(f.instruction)) {
        Some(issue(f, rs1, rs2))
    } else {
        None
    }
}

/// Whether this core executes instructions of the opcode.
#[verifier::when_used_as_spec(spec_supported)]
pub fn supported(opcode: u8) -> (r: bool)
    ensures
        r == spec_supported(opcode),
{
    opcode == OP_ALUI || opcode == OP_LOAD || opcode == OP_JALR || opcode == OP_STORE || opcode
        == OP_BRANCH || opcode == OP_JAL || opcode == OP_AUIPC || opcode == OP_LUI || opcode
        == OP_ALU
}

/// The opcode of an instruction.
pub fn opcode(i: u32) -> (r: u8)
    ensures
        r == opcode_of(i),
{
    assert(i & 0x7f == i % 0x80) by (bit_vector);
    (i & 0x7f) as u8
}

/// The two source register indexes of an instruction, each below 32.
pub fn source_registers(i: u32) -> (r: (u8, u8))
    ensures
        r.0 == rs1_of(i),
        r.1 == rs2_of(i),
        r.0 < 32,
        r.1 < 32,
{
    assert((i >> 15) & 0x1f == (i / 0x8000) % 0x20) by (bit_vector);
    assert((i >> 20) & 0x1f == (i / 0x10_0000) % 0x20) by (bit_vector);
    (((i >> 15) & 0x1f) as u8, ((i >> 20) & 0x1f) as u8)
}

/// The immediate of the I format, by an arithmetic shift.
pub fn immediate_i(i: u32) -> (r: RiscWord)
    ensures
        r == imm_i(i),
{
    let r: u32 = ((i as i32) >> 20) as u32;
    assert(r == (if i / 0x10_0000 < 0x800 {
        i / 0x10_0000
    } else {
        (i / 0x10_0000 + 0xffff_f000) as u32
    })) by (bit_vector)
        requires
            r == ((i as i32) >> 20) as u32,
    ;
    r
}

/// The immediate of the S format, by shifts and masks.
pub fn immediate_s(i: u32) -> (r: RiscWord)
    ensures
        r == imm_s(i),
{
    let r: u32 = ((((i as i32) >> 20) as u32) & 0xffff_ffe0) | ((i >> 7) & 0x1f);
    let ghost field: u32 = ((i >> 25) << 5) | ((i >> 7) & 0x1f);
    assert(field == (i / 0x200_0000) * 0x20 + (i / 0x80) % 0x20 && field < 0x1000 && r == (
    if field < 0x800 {
        field
    } else {
        (field + 0xffff_f000) as u32
    })) by (bit_vector)
        requires
            r == ((((i as i32) >> 20) as u32) & 0xffff_ffe0) | ((i >> 7) & 0x1f),
            field == (((i >> 25) << 5) | ((i >> 7) & 0x1f)),
    ;
    r
}

/// The immediate of the B format, by shifts and masks.
pub fn immediate_b(i: u32) -> (r: RiscWord)
    ensures
        r == imm_b(i),
{
    let r: u32 = ((((i as i32) >> 31) as u32) << 12) | (((i >> 7) & 0x1) << 11) | (((i >> 25)
        & 0x3f) << 5) | (((i >> 8) & 0xf) << 1);
    let ghost field: u32 = ((i >> 31) << 12) | (((i >> 7) & 0x1) << 11) | (((i >> 25) & 0x3f)
        << 5) | (((i >> 8) & 0xf) << 1);
    assert(field == (i / 0x8000_0000) * 0x1000 + ((i / 0x80) % 2) * 0x800 + ((i / 0x200_0000)
        % 0x40) * 0x20 + ((i / 0x100) % 0x10) * 2 && field < 0x2000 && r == (if field < 0x1000 {
        field
    } else {
        (field + 0xffff_e000) as u32
    })) by (bit_vector)
        requires
            r == ((((i as i32) >> 31) as u32) << 12) | (((i >> 7) & 0x1) << 11) | (((i >> 25)
                & 0x3f) << 5) | (((i >> 8) & 0xf) << 1),
            field == ((i >> 31) << 12) | (((i >> 7) & 0x1) << 11) | (((i >> 25) & 0x3f) << 5) | (((i
                >> 8) & 0xf) << 1),
    ;
    r
}

/// The immediate of the J format, by shifts and masks.
pub fn immediate_j(i: u32) -> (r: RiscWord)
    ensures
        r == imm_j(i),
{
    let r: u32 = ((((i as i32) >> 31) as u32) << 20) | (((i >> 12) & 0xff) << 12) | (((i >> 20)
        & 0x1) << 11) | (((i >> 21) & 0x3ff) << 1);
    let ghost field: u32 = ((i >> 31) << 20) | (((i >> 12) & 0xff) << 12) | (((i >> 20) & 0x1)
        << 11) | (((i >> 21) & 0x3ff) << 1);
    assert(field == (i / 0x8000_0000) * 0x10_0000 + ((i / 0x1000) % 0x100) * 0x1000 + ((i
        / 0x10_0000) % 2) * 0x800 + ((i / 0x20_0000) % 0x400) * 2 && field < 0x20_0000 && r == (
    if field < 0x10_0000 {
        field
    } else {
        (field + 0xffe0_0000) as u32
    })) by (bit_vector)
        requires
            r == ((((i as i32) >> 31) as u32) << 20) | (((i >> 12) & 0xff) << 12) | (((i >> 20)
                & 0x1) << 11) | (((i >> 21) & 0x3ff) << 1),
            field == ((i >> 31) << 20) | (((i >> 12) & 0xff) << 12) | (((i >> 20) & 0x1) << 11) | (((
            i >> 21) & 0x3ff) << 1),
    ;
    r
}

/// The immediate of an instruction, by the format of its opcode.
pub fn immediate(i: u32) -> (r: RiscWord)
    ensures
        r == immediate_of(i),
{
    let opcode: u8 = opcode(i);
    if opcode == OP_ALUI || opcode == OP_LOAD || opcode == OP_JALR {
        immediate_i(i)
    } else if opcode == OP_STORE {
        immediate_s(i)
    } else if opcode == OP_BRANCH {
        immediate_b(i)
    } else if opcode == OP_JAL {
        immediate_j(i)
    } else if opcode == OP_AUIPC || opcode == OP_LUI {
        assert(i & 0xfff == i % 0x1000) by (bit_vector);
        i & 0xfff
    } else {
        0
    }
}

/// The combinational logic of the decode stage, on records: `rs1` and `rs2`
/// are the values of the instruction's source registers.
pub fn decode(f: &IfId, branch: &BranchSignal, rs1: RiscWord, rs2: RiscWord) -> (r: Option<IdEx>)
    ensures
        r == decode_spec(*f, *branch, rs1, rs2),
{
    let i: u32 = f.instruction;
    let opcode: u8 = opcode(i);
    if branch.taken() || i == 0 {
        Some(
            IdEx {
                opcode: 0,
                func3: 0,
                func7: 0,
                reg_write: 0,
                mem_rw: 0,
                rd: 0,
                branch_or_jump: 0,
                imm: 0,
                rs1: 0,
                rs2: 0,
                pc: 0,
                rs1_idx: 0,
                rs2_idx: 0,
            },
        )
    } else if supported(opcode) {
        let reg_write: u8 = if opcode == OP_ALUI || opcode == OP_LOAD || opcode == OP_JALR || opcode
            == OP_ALU || opcode == OP_LUI || opcode == OP_AUIPC || opcode == OP_JAL {
            1
        } else {
            0
        };
        let mem_rw: u8 = if opcode == OP_LOAD {
            1
        } else if opcode == OP_STORE {
            3
        } else {
            0
        };
        let branch_or_jump: u8 = if opcode == OP_BRANCH || opcode == OP_JAL || opcode == OP_JALR {
            1
        } else {
            0
        };
        let sources = source_registers(i);
        assert((i >> 12) & 0x7 == (i / 0x1000) % 0x8) by (bit_vector);
        assert((i >> 25) & 0x7f == i / 0x200_0000) by (bit_vector);
        assert((i >> 7) & 0x1f == (i / 0x80) % 0x20) by (bit_vector);
        Some(
            IdEx {
                opcode: opcode,
                func3: ((i >> 12) & 0x7) as u8,
                func7: ((i >> 25) & 0x7f) as u8,
                reg_write: reg_write,
                mem_rw: mem_rw,
                rd: ((i >> 7) & 0x1f) as u8,
                branch_or_jump: branch_or_jump,
                imm: immediate(i),
                rs1: rs1,
                rs2: rs2,
                pc: f.pc,
                rs1_idx: sources.0,
                rs2_idx: sources.1,
            },
        )
    } else {
        None
    }
}

/// The instruction word of the I format with the given fields. Only the low
/// twelve bits of `imm` are encoded.
pub open spec fn encode_i_spec(imm: RiscWord, rs1: u8, func3: u8, rd: u8, opcode: u8) -> u32 {
    ((imm & 0xfff) << 20) | ((rs1 as u32 & 0x1f) << 15) | ((func3 as u32 & 0x7) << 12) | ((rd as u32
        & 0x1f) << 7) | (opcode as u32 & 0x7f)
}

/// The instruction word of the S format with the given fields. Only the low
/// twelve bits of `imm` are encoded.
pub open spec fn encode_s_spec(imm: RiscWord, rs2: u8, rs1: u8, func3: u8, opcode: u8) -> u32 {
    (((imm >> 5) & 0x7f) << 25) | ((rs2 as u32 & 0x1f) << 20) | ((rs1 as u32 & 0x1f) << 15) | ((
    func3 as u32 & 0x7) << 12) | ((imm & 0x1f) << 7) | (opcode as u32 & 0x7f)
}

/// The instruction word of the B format with the given fields. Only bits 12:1
/// of `imm` are encoded.
pub open spec fn encode_b_spec(imm: RiscWord, rs2: u8, rs1: u8, func3: u8, opcode: u8) -> u32 {
    (((imm >> 12) & 0x1) << 31) | (((imm >> 5) & 0x3f) << 25) | ((rs2 as u32 & 0x1f) << 20) | ((
    rs1 as u32 & 0x1f) << 15) | ((func3 as u32 & 0x7) << 12) | (((imm >> 1) & 0xf) << 8) | (((imm
        >> 11) & 0x1) << 7) | (opcode as u32 & 0x7f)
}

/// The instruction word of the J format with the given fields. Only bits 20:1
/// of `imm` are encoded.
pub open spec fn encode_j_spec(imm: RiscWord, rd: u8, opcode: u8) -> u32 {
    (((imm >> 20) & 0x1) << 31) | (((imm >> 1) & 0x3ff) << 21) | (((imm >> 11) & 0x1) << 20) | (((
    imm >> 12) & 0xff) << 12) | ((rd as u32 & 0x1f) << 7) | (opcode as u32 & 0x7f)
}

/// Assembles an instruction of the I format.
#[verifier::when_used_as_spec(encode_i_spec)]
pub fn encode_i(imm: RiscWord, rs1: u8, func3: u8, rd: u8, opcode: u8) -> (r: u32)
    ensures
        r == encode_i_spec(imm, rs1, func3, rd, opcode),
{
    ((imm & 0xfff) << 20) | ((rs1 as u32 & 0x1f) << 15) | ((func3 as u32 & 0x7) << 12) | ((rd as u32
        & 0x1f) << 7) | (opcode as u32 & 0x7f)
}

/// Assembles an instruction of the S format.
#[verifier::when_used_as_spec(encode_s_spec)]
pub fn encode_s(imm: RiscWord, rs2: u8, rs1: u8, func3: u8, opcode: u8) -> (r: u32)
    ensures
        r == encode_s_spec(imm, rs2, rs1, func3, opcode),
{
    (((imm >> 5) & 0x7f) << 25) | ((rs2 as u32 & 0x1f) << 20) | ((rs1 as u32 & 0x1f) << 15) | ((
    func3 as u32 & 0x7) << 12) | ((imm & 0x1f) << 7) | (opcode as u32 & 0x7f)
}

/// Assembles an instruction of the B format.
#[verifier::when_used_as_spec(encode_b_spec)]
pub fn encode_b(imm: RiscWord, rs2: u8, rs1: u8, func3: u8, opcode: u8) -> (r: u32)
    ensures
        r == encode_b_spec(imm, rs2, rs1, func3, opcode),
{
    (((imm >> 12) & 0x1) << 31) | (((imm >> 5) & 0x3f) << 25) | ((rs2 as u32 & 0x1f) << 20) | ((
    rs1 as u32 & 0x1f) << 15) | ((func3 as u32 & 0x7) << 12) | (((imm >> 1) & 0xf) << 8) | (((imm
        >> 11) & 0x1) << 7) | (opcode as u32 & 0x7f)
}

/// Assembles an instruction of the J format.
#[verifier::when_used_as_spec(encode_j_spec)]
pub fn encode_j(imm: RiscWord, rd: u8, opcode: u8) -> (r: u32)
    ensures
        r == encode_j_spec(imm, rd, opcode),
{
    (((imm >> 20) & 0x1) << 31) | (((imm >> 1) & 0x3ff) << 21) | (((imm >> 11) & 0x1) << 20) | (((
    imm >> 12) & 0xff) << 12) | ((rd as u32 & 0x1f) << 7) | (opcode as u32 & 0x7f)
}

/// Decoding an instruction of the I format gives back the immediate it was
/// assembled from, for every immediate that twelve signed bits can hold, and
/// gives back the register and function fields.
pub proof fn lemma_immediate_round_trip_i(imm: RiscWord, rs1: u8, func3: u8, rd: u8, opcode: u8)
    requires
        -0x800 <= signed(imm) < 0x800,
        opcode == OP_ALUI || opcode == OP_LOAD || opcode == OP_JALR,
        rs1 < 32,
        rd < 32,
        func3 < 8,
    ensures
        immediate_of(encode_i(imm, rs1, func3, rd, opcode)) == imm,
        opcode_of(encode_i(imm, rs1, func3, rd, opcode)) == opcode,
        rs1_of(encode_i(imm, rs1, func3, rd, opcode)) == rs1,
        rd_of(encode_i(imm, rs1, func3, rd, opcode)) == rd,
        func3_of(encode_i(imm, rs1, func3, rd, opcode)) == func3,
{
    let i = encode_i(imm, rs1, func3, rd, opcode);
    assert(imm_i(i) == imm && opcode_of(i) == opcode && rs1_of(i) == rs1 && rd_of(i) == rd
        && func3_of(i) == func3) by (bit_vector)
        requires
            i == encode_i_spec(imm, rs1, func3, rd, opcode),
            imm < 0x800 || imm >= 0xffff_f800,
            opcode < 128,
            rs1 < 32,
            rd < 32,
            func3 < 8,
    ;
}

/// Decoding a store gives back the immediate it was assembled from, for every
/// immediate that twelve signed bits can hold, and gives back the register
/// and function fields.
pub proof fn lemma_immediate_round_trip_s(imm: RiscWord, rs2: u8, rs1: u8, func3: u8)
    requires
        -0x800 <= signed(imm) < 0x800,
        rs1 < 32,
        rs2 < 32,
        func3 < 8,
    ensures
        immediate_of(encode_s(imm, rs2, rs1, func3, OP_STORE)) == imm,
        opcode_of(encode_s(imm, rs2, rs1, func3, OP_STORE)) == OP_STORE,
        rs1_of(encode_s(imm, rs2, rs1, func3, OP_STORE)) == rs1,
        rs2_of(encode_s(imm, rs2, rs1, func3, OP_STORE)) == rs2,
        func3_of(encode_s(imm, rs2, rs1, func3, OP_STORE)) == func3,
{
    let i = encode_s(imm, rs2, rs1, func3, OP_STORE);
    assert(imm_s(i) == imm && opcode_of(i) == 0b0100011u8 && rs1_of(i) == rs1 && rs2_of(i) == rs2
        && func3_of(i) == func3) by (bit_vector)
        requires
            i == encode_s_spec(imm, rs2, rs1, func3, 0b0100011u8),
            imm < 0x800 || imm >= 0xffff_f800,
            rs1 < 32,
            rs2 < 32,
            func3 < 8,
    ;
}

/// Decoding a branch gives back the offset it was assembled from, for every
/// even offset that thirteen signed bits can hold, and gives back the
/// register and function fields.
pub proof fn lemma_immediate_round_trip_b(imm: RiscWord, rs2: u8, rs1: u8, func3: u8)
    requires
        -0x1000 <= signed(imm) < 0x1000,
        imm % 2 == 0,
        rs1 < 32,
        rs2 < 32,
        func3 < 8,
    ensures
        immediate_of(encode_b(imm, rs2, rs1, func3, OP_BRANCH)) == imm,
        opcode_of(encode_b(imm, rs2, rs1, func3, OP_BRANCH)) == OP_BRANCH,
        rs1_of(encode_b(imm, rs2, rs1, func3, OP_BRANCH)) == rs1,
        rs2_of(encode_b(imm, rs2, rs1, func3, OP_BRANCH)) == rs2,
        func3_of(encode_b(imm, rs2, rs1, func3, OP_BRANCH)) == func3,
{
    let i = encode_b(imm, rs2, rs1, func3, OP_BRANCH);
    assert(imm_b(i) == imm && opcode_of(i) == 0b1100011u8 && rs1_of(i) == rs1 && rs2_of(i) == rs2
        && func3_of(i) == func3) by (bit_vector)
        requires
            i == encode_b_spec(imm, rs2, rs1, func3, 0b1100011u8),
            imm < 0x1000 || imm >= 0xffff_f000,
            imm % 2 == 0,
            rs1 < 32,
            rs2 < 32,
            func3 < 8,
    ;
}

/// Decoding a jump gives back the offset it was assembled from, for every
/// even offset that twenty-one signed bits can hold, and gives back the
/// destination register.
pub proof fn lemma_immediate_round_trip_j(imm: RiscWord, rd: u8)
    requires
        -0x10_0000 <= signed(imm) < 0x10_0000,
        imm % 2 == 0,
        rd < 32,
    ensures
        immediate_of(encode_j(imm, rd, OP_JAL)) == imm,
        opcode_of(encode_j(imm, rd, OP_JAL)) == OP_JAL,
        rd_of(encode_j(imm, rd, OP_JAL)) == rd,
{
    let i = encode_j(imm, rd, OP_JAL);
    assert(imm_j(i) == imm && opcode_of(i) == 0b1101111u8 && rd_of(i) == rd) by (bit_vector)
        requires
            i == encode_j_spec(imm, rd, 0b1101111u8),
            imm < 0x10_0000 || imm >= 0xfff0_0000,
            imm % 2 == 0,
            rd < 32,
    ;
}

/// Whether `after` is the core `before` once its decode stage has worked on
/// `pipeline_reg` with the outcome `out`. The stage first writes the commit
/// that writeback has put on its wire to the register file, and nothing else
/// of the core changes. It then puts out what `decode_spec` gives for the
/// instruction in the register, the branch resolution on the wire from the
/// memory stage, and the values that the source registers have after the
/// commit; an opcode that the core does not execute is a fault.
#[verifier::opaque]
pub open spec fn decode_step<C: Cache, D: MemoryDevice>(
    before: RiscCore<C, D>,
    pipeline_reg: Seq<u8>,
    after: RiscCore<C, D>,
    out: Result<Seq<u8>, StageError>,
) -> bool {
    let f = IfId::from_bytes(pipeline_reg);
    let signal = BranchSignal::from_bytes(before.cdb.sampled(MEM_STAGE as int, ID_STAGE as int));
    let commit = Forward::from_bytes(before.cdb.sampled(WB_STAGE as int, ID_STAGE as int));
    let registers = committed(before.registers@, commit);
    &&& after == (RiscCore { registers: after.registers, ..before })
    &&& after.well_formed()
    &&& after.registers@ == registers
    &&& out == match decode_spec(
        f,
        signal,
        registers[rs1_of(f.instruction) as int],
        registers[rs2_of(f.instruction) as int],
    ) {
        Some(d) => Ok::<Seq<u8>, StageError>(d.to_bytes()),
        None => Err::<Seq<u8>, StageError>(
            StageError::UnsupportedOpcode(opcode_of(f.instruction)),
        ),
    }
}

/// What a step of the decode stage keeps, and what it makes of the register
/// file.
pub proof fn lemma_decode_step<C: Cache, D: MemoryDevice>(
    before: RiscCore<C, D>,
    pipeline_reg: Seq<u8>,
    after: RiscCore<C, D>,
    out: Result<Seq<u8>, StageError>,
)
    requires
        decode_step(before, pipeline_reg, after, out),
    ensures
        after == (RiscCore { registers: after.registers, ..before }),
        after.well_formed(),
        after.registers@ == committed(
            before.registers@,
            Forward::from_bytes(before.cdb.sampled(WB_STAGE as int, ID_STAGE as int)),
        ),
{
    reveal(decode_step);
}

/// The decode stage: commits the result of the instruction in writeback to
/// the register file, reads the source registers, and issues the
/// instruction, or a bubble where a taken branch squashes it.
pub fn rv32_mcu_decode_stage<C: Cache, D: MemoryDevice>(
    pipeline_reg: &PipelineData,
    rv32_core: &mut RiscCore<C, D>,
) -> (r: Result<PipelineData, StageError>)
    requires
        old(rv32_core).well_formed(),
        old(rv32_core).num_stages > WB_STAGE,
        old(rv32_core).cdb.readable(MEM_STAGE as int, ID_STAGE as int),
        old(rv32_core).cdb.readable(WB_STAGE as int, ID_STAGE as int),
    ensures
        decode_step(*old(rv32_core), pipeline_reg@, *final(rv32_core), outcome_view(r)),
        final(rv32_core).well_formed(),
{
    proof {
        reveal(decode_step);
    }
    let f = IfId::parse(pipeline_reg);
    let signal = BranchSignal::parse(&rv32_core.cdb.pull(MEM_STAGE, ID_STAGE));
    let commit = Forward::parse(&rv32_core.cdb.pull(WB_STAGE, ID_STAGE));
    if commit.reg_write == 1 {
        rv32_core.registers.write_reg(commit.target() as usize, commit.value);
    }
    let sources = source_registers(f.instruction);
    let (rs1, rs2) = rv32_core.registers.read_regs(sources.0 as usize, sources.1 as usize);
    match decode(&f, &signal, rs1, rs2) {
        Some(d) => Ok(d.encode()),
        None => Err(StageError::UnsupportedOpcode(opcode(f.instruction))),
    }
}

} // verus!
