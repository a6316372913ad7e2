//! Execute: operand forwarding, the arithmetic unit and branch resolution.

use crate::decode::{
    OP_ALU, OP_ALUI, OP_AUIPC, OP_BRANCH, OP_JAL, OP_JALR, OP_LOAD, OP_LUI, OP_STORE,
};
use crate::cache::Cache;
use crate::mcu_core::{EX_STAGE, MEM_STAGE, WB_STAGE};
use crate::memory_management_unit::MemoryDevice;
use crate::payload::{ExMem, Forward, IdEx};
use crate::pipeline_stage::PipelineData;
use crate::risc_soc::RiscCore;
use crate::risc_word::RiscWord;
use vstd::prelude::*;

verus! {

/// The `func7` value that selects subtraction and the arithmetic right shift.
pub const FUNC7_ALTERNATE: u8 = 0b0100000;

/// Sum of two words, modulo 2^32.
pub open spec fn add32(a: RiscWord, b: RiscWord) -> RiscWord {
    ((a as int + b as int) % 0x1_0000_0000) as RiscWord
}

/// Difference of two words, modulo 2^32.
pub open spec fn sub32(a: RiscWord, b: RiscWord) -> RiscWord {
    ((a as int - b as int) % 0x1_0000_0000) as RiscWord
}

/// The two's-complement value of a word.
pub open spec fn signed(a: RiscWord) -> int {
    if a < 0x8000_0000 {
        a as int
    } else {
        a as int - 0x1_0000_0000
    }
}

/// Shift left by the low five bits of `by`.
pub open spec fn sll32(a: RiscWord, by: RiscWord) -> RiscWord {
    a << (by % 32)
}

/// Logical shift right by the low five bits of `by`.
pub open spec fn srl32(a: RiscWord, by: RiscWord) -> RiscWord {
    a >> (by % 32)
}

/// Arithmetic shift right by the low five bits of `by`: the sign bit fills
/// the vacated positions.
pub open spec fn sra32(a: RiscWord, by: RiscWord) -> RiscWord {
    ((a as i32) >> (by % 32)) as RiscWord
}

/// A word shifted left by twelve: the value of an upper immediate.
pub open spec fn upper(imm: RiscWord) -> RiscWord {
    ((imm as int * 0x1000) % 0x1_0000_0000) as RiscWord
}

/// One for true, zero for false.
pub open spec fn flag(b: bool) -> RiscWord {
    if b {
        1
    } else {
        0
    }
}

/// Sum of two words, modulo 2^32.
pub fn wrapping_sum(a: RiscWord, b: RiscWord) -> (r: RiscWord)
    ensures
        r == add32(a, b),
{
    a.wrapping_add(b)
}

/// Difference of two words, modulo 2^32.
pub fn wrapping_difference(a: RiscWord, b: RiscWord) -> (r: RiscWord)
    ensures
        r == sub32(a, b),
{
    a.wrapping_sub(b)
}

/// Whether `a` is below `b` when both are read as two's-complement values.
pub fn less_signed(a: RiscWord, b: RiscWord) -> (r: bool)
    ensures
        r == (signed(a) < signed(b)),
{
    assert((a as i32) as int == signed(a)) by (bit_vector);
    assert((b as i32) as int == signed(b)) by (bit_vector);
    (a as i32) < (b as i32)
}

/// Shift left by the low five bits of `by`.
pub fn shift_left(a: RiscWord, by: RiscWord) -> (r: RiscWord)
    ensures
        r == sll32(a, by),
{
    a << (by % 32)
}

/// Logical shift right by the low five bits of `by`.
pub fn shift_right(a: RiscWord, by: RiscWord) -> (r: RiscWord)
    ensures
        r == srl32(a, by),
{
    a >> (by % 32)
}

/// Shifts a word left by twelve.
pub fn shift_upper(imm: RiscWord) -> (r: RiscWord)
    ensures
        r == upper(imm),
{
    let r: RiscWord = imm << 12;
    assert(r == (imm as u64 * 0x1000) % 0x1_0000_0000) by (bit_vector)
        requires
            r == imm << 12,
    ;
    r
}

/// Arithmetic shift right by the low five bits of `by`.
pub fn shift_right_arithmetic(a: RiscWord, by: RiscWord) -> (r: RiscWord)
    ensures
        r == sra32(a, by),
{
    ((a as i32) >> (by % 32)) as RiscWord
}

/// The operand that execute works on: the value forwarded from the memory
/// stage if it feeds register `index`, else the one forwarded from writeback
/// if that feeds it, else the value read at decode.
pub open spec fn forwarded(own: RiscWord, index: u8, mem: Forward, wb: Forward) -> RiscWord {
    if mem.feeds(index) {
        mem.value
    } else if wb.feeds(index) {
        wb.value
    } else {
        own
    }
}

/// Result of a register-register operation. An encoding that names no
/// operation gives zero.
pub open spec fn alu_register(func3: u8, func7: u8, a: RiscWord, b: RiscWord) -> RiscWord {
    if func3 == 0 && func7 == 0 {
        add32(a, b)
    } else if func3 == 0 && func7 == FUNC7_ALTERNATE {
        sub32(a, b)
    } else if func3 == 1 {
        sll32(a, b)
    } else if func3 == 2 {
        flag(signed(a) < signed(b))
    } else if func3 == 3 {
        flag(a < b)
    } else if func3 == 4 {
        a ^ b
    } else if func3 == 5 && func7 == 0 {
        srl32(a, b)
    } else if func3 == 5 && func7 == FUNC7_ALTERNATE {
        sra32(a, b)
    } else if func3 == 6 {
        a | b
    } else if func3 == 7 {
        a & b
    } else {
        0
    }
}

/// Result of a register-immediate operation. An encoding that names no
/// operation gives zero.
pub open spec fn alu_immediate(func3: u8, func7: u8, a: RiscWord, imm: RiscWord) -> RiscWord {
    if func3 == 0 {
        add32(a, imm)
    } else if func3 == 1 {
        sll32(a, imm)
    } else if func3 == 2 {
        flag(signed(a) < signed(imm))
    } else if func3 == 3 {
        flag(a < imm)
    } else if func3 == 4 {
        a ^ imm
    } else if func3 == 5 && func7 == 0 {
        srl32(a, imm)
    } else if func3 == 5 && func7 == FUNC7_ALTERNATE {
        sra32(a, imm)
    } else if func3 == 6 {
        a | imm
    } else if func3 == 7 {
        a & imm
    } else {
        0
    }
}

/// Whether a conditional branch is taken. An encoding that names no
/// comparison is not taken.
pub open spec fn branch_taken(func3: u8, a: RiscWord, b: RiscWord) -> bool {
    if func3 == 0 {
        a == b
    } else if func3 == 1 {
        a != b
    } else if func3 == 4 {
        signed(a) < signed(b)
    } else if func3 == 5 {
        signed(a) >= signed(b)
    } else if func3 == 6 {
        a < b
    } else if func3 == 7 {
        a >= b
    } else {
        false
    }
}

/// The value that execute produces for the destination register or as the
/// effective address.
pub open spec fn alu_out(d: IdEx, rs1: RiscWord, rs2: RiscWord) -> RiscWord {
    if d.opcode == OP_ALU {
        alu_register(d.func3, d.func7, rs1, rs2)
    } else if d.opcode == OP_ALUI {
        alu_immediate(d.func3, d.func7, rs1, d.imm)
    } else if d.opcode == OP_LUI {
        upper(d.imm)
    } else if d.opcode == OP_AUIPC {
        add32(d.pc, upper(d.imm))
    } else if d.opcode == OP_JAL || d.opcode == OP_JALR {
        add32(d.pc, 4)
    } else if d.opcode == OP_LOAD || d.opcode == OP_STORE {
        add32(rs1, d.imm)
    } else {
        0
    }
}

/// The address that execute hands on: the target of a jump or branch, else
/// the address of the instruction itself.
pub open spec fn next_pc(d: IdEx, rs1: RiscWord) -> RiscWord {
    if d.opcode == OP_JAL || d.opcode == OP_BRANCH {
        add32(d.pc, d.imm)
    } else if d.opcode == OP_JALR {
        add32(rs1, d.imm)
    } else {
        d.pc
    }
}

/// Whether execute asks for a redirect of the fetch.
pub open spec fn take_jump(d: IdEx, rs1: RiscWord, rs2: RiscWord) -> u8 {
    if d.opcode == OP_JAL || d.opcode == OP_JALR {
        1
    } else if d.opcode == OP_BRANCH && branch_taken(d.func3, rs1, rs2) {
        1
    } else {
        0
    }
}

/// What the execute stage computes from its register and the two results
/// forwarded to it in the same cycle.
pub open spec fn execute_spec(d: IdEx, mem: Forward, wb: Forward) -> ExMem {
    let rs1 = forwarded(d.rs1, d.rs1_idx, mem, wb);
    let rs2 = forwarded(d.rs2, d.rs2_idx, mem, wb);
    ExMem {
        reg_write: d.reg_write,
        mem_rw: d.mem_rw,
        rd: d.rd,
        func3: d.func3,
        alu_out: alu_out(d, rs1, rs2),
        rs2: rs2,
        branch_or_jump: d.branch_or_jump,
        take_jump: take_jump(d, rs1, rs2),
        pc: next_pc(d, rs1),
    }
}

/// Picks the operand for register `index` among the forwarded results and the
/// value read at decode.
pub fn forward_operand(own: RiscWord, index: u8, mem: &Forward, wb: &Forward) -> (r: RiscWord)
    ensures
        r == forwarded(own, index, *mem, *wb),
{
    if mem.feeds(index) {
        mem.value
    } else if wb.feeds(index) {
        wb.value
    } else {
        own
    }
}

/// Computes a register-register operation.
pub fn compute_register(func3: u8, func7: u8, a: RiscWord, b: RiscWord) -> (r: RiscWord)
    ensures
        r == alu_register(func3, func7, a, b),
{
    if func3 == 0 && func7 == 0 {
        wrapping_sum(a, b)
    } else if func3 == 0 && func7 == FUNC7_ALTERNATE {
        wrapping_difference(a, b)
    } else if func3 == 1 {
        shift_left(a, b)
    } else if func3 == 2 {
        if less_signed(a, b) {
            1
        } else {
            0
        }
    } else if func3 == 3 {
        if a < b {
            1
        } else {
            0
        }
    } else if func3 == 4 {
        a ^ b
    } else if func3 == 5 && func7 == 0 {
        shift_right(a, b)
    } else if func3 == 5 && func7 == FUNC7_ALTERNATE {
        shift_right_arithmetic(a, b)
    } else if func3 == 6 {
        a | b
    } else if func3 == 7 {
        a & b
    } else {
        0
    }
}

/// Computes a register-immediate operation.
pub fn compute_immediate(func3: u8, func7: u8, a: RiscWord, imm: RiscWord) -> (r: RiscWord)
    ensures
        r == alu_immediate(func3, func7, a, imm),
{
    if func3 == 0 {
        wrapping_sum(a, imm)
    } else if func3 == 1 {
        shift_left(a, imm)
    } else if func3 == 2 {
        if less_signed(a, imm) {
            1
        } else {
            0
        }
    } else if func3 == 3 {
        if a < imm {
            1
        } else {
            0
        }
    } else if func3 == 4 {
        a ^ imm
    } else if func3 == 5 && func7 == 0 {
        shift_right(a, imm)
    } else if func3 == 5 && func7 == FUNC7_ALTERNATE {
        shift_right_arithmetic(a, imm)
    } else if func3 == 6 {
        a | imm
    } else if func3 == 7 {
        a & imm
    } else {
        0
    }
}

/// Decides a conditional branch.
pub fn resolve_branch(func3: u8, a: RiscWord, b: RiscWord) -> (r: bool)
    ensures
        r == branch_taken(func3, a, b),
{
    if func3 == 0 {
        a == b
    } else if func3 == 1 {
        a != b
    } else if func3 == 4 {
        less_signed(a, b)
    } else if func3 == 5 {
        !less_signed(a, b)
    } else if func3 == 6 {
        a < b
    } else if func3 == 7 {
        a >= b
    } else {
        false
    }
}

/// The combinational logic of the execute stage, on records.
pub fn execute(d: &IdEx, mem: &Forward, wb: &Forward) -> (r: ExMem)
    ensures
        r == execute_spec(*d, *mem, *wb),
{
    let rs1: RiscWord = forward_operand(d.rs1, d.rs1_idx, mem, wb);
    let rs2: RiscWord = forward_operand(d.rs2, d.rs2_idx, mem, wb);
    let mut alu: RiscWord = 0;
    let mut jump: u8 = 0;
    let mut pc: RiscWord = d.pc;
    if d.opcode == OP_ALU {
        alu = compute_register(d.func3, d.func7, rs1, rs2);
    } else if d.opcode == OP_ALUI {
        alu = compute_immediate(d.func3, d.func7, rs1, d.imm);
    } else if d.opcode == OP_LUI {
        alu = shift_upper(d.imm);
    } else if d.opcode == OP_AUIPC {
        alu = wrapping_sum(d.pc, shift_upper(d.imm));
    } else if d.opcode == OP_JAL {
        alu = wrapping_sum(d.pc, 4);
        pc = wrapping_sum(d.pc, d.imm);
        jump = 1;
    } else if d.opcode == OP_JALR {
        alu = wrapping_sum(d.pc, 4);
        pc = wrapping_sum(rs1, d.imm);
        jump = 1;
    } else if d.opcode == OP_LOAD || d.opcode == OP_STORE {
        alu = wrapping_sum(rs1, d.imm);
    } else if d.opcode == OP_BRANCH {
        pc = wrapping_sum(d.pc, d.imm);
        if resolve_branch(d.func3, rs1, rs2) {
            jump = 1;
        }
    }
    ExMem {
        reg_write: d.reg_write,
        mem_rw: d.mem_rw,
        rd: d.rd,
        func3: d.func3,
        alu_out: alu,
        rs2: rs2,
        branch_or_jump: d.branch_or_jump,
        take_jump: jump,
        pc: pc,
    }
}

/// What the execute stage of a core puts out for `pipeline_reg`: the result
/// of `execute_spec` on the record in the register and on the results that
/// the memory and writeback stages have put on their wires to execute.
pub open spec fn execute_step<C: Cache, D: MemoryDevice>(
    core: RiscCore<C, D>,
    pipeline_reg: Seq<u8>,
) -> Seq<u8> {
    execute_spec(
        IdEx::from_bytes(pipeline_reg),
        Forward::from_bytes(core.cdb.sampled(MEM_STAGE as int, EX_STAGE as int)),
        Forward::from_bytes(core.cdb.sampled(WB_STAGE as int, EX_STAGE as int)),
    ).to_bytes()
}

/// The execute stage: takes the operands forwarded from the memory and
/// writeback stages where they feed its source registers, and computes the
/// result, the branch decision and the target.
pub fn rv32_mcu_execute_stage<C: Cache, D: MemoryDevice>(
    pipeline_reg: &PipelineData,
    rv32_core: &RiscCore<C, D>,
) -> (r: PipelineData)
    requires
        rv32_core.well_formed(),
        rv32_core.num_stages > WB_STAGE,
        rv32_core.cdb.readable(MEM_STAGE as int, EX_STAGE as int),
        rv32_core.cdb.readable(WB_STAGE as int, EX_STAGE as int),
    ensures
        r@ == execute_step(*rv32_core, pipeline_reg@),
{
    let mem = Forward::parse(&rv32_core.cdb.pull(MEM_STAGE, EX_STAGE));
    let wb = Forward::parse(&rv32_core.cdb.pull(WB_STAGE, EX_STAGE));
    execute(&IdEx::parse(pipeline_reg), &mem, &wb).encode()
}

} // verus!
