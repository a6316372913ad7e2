//! Decode and execute on single instructions.

use risc_soc::decode::{
    decode, encode_b, encode_i, encode_j, encode_s, immediate, opcode, source_registers,
    supported, OP_ALU, OP_ALUI, OP_AUIPC, OP_BRANCH, OP_FENCE, OP_JAL, OP_JALR, OP_LOAD, OP_LUI,
    OP_STORE, OP_SYSTEM,
};
use risc_soc::execute::{
    compute_immediate, compute_register, execute, forward_operand, less_signed, resolve_branch,
    shift_left, shift_right, shift_right_arithmetic, wrapping_difference, wrapping_sum,
};
use risc_soc::payload::{BranchSignal, ExMem, Forward, IdEx, IfId};

const QUIET: BranchSignal = BranchSignal { branch_or_jump: 0, take_jump: 0, pc: 0 };
const NOTHING: Forward = Forward { reg_write: 0, rd: 0, value: 0 };

fn bubble() -> IdEx {
    IdEx {
        opcode: 0,
        func3: 0,
        func7: 0,
        reg_write: 0,
        mem_rw: 0,
        rd: 0,
        branch_or_jump: 0,
        imm: 0,
        rs1: 0,
        rs2: 0,
        pc: 0,
        rs1_idx: 0,
        rs2_idx: 0,
    }
}

fn issue(instruction: u32, pc: u32, rs1: u32, rs2: u32) -> IdEx {
    decode(&IfId { instruction, pc }, &QUIET, rs1, rs2).expect("supported")
}

fn run(instruction: u32, pc: u32, rs1: u32, rs2: u32) -> ExMem {
    execute(&issue(instruction, pc, rs1, rs2), &NOTHING, &NOTHING)
}

#[test]
fn instruction_fields() {
    // add x3,x1,x2
    let d = issue(0x0020_81b3, 0x8000_0008, 10, 20);
    assert_eq!(
        d,
        IdEx {
            opcode: OP_ALU,
            func3: 0,
            func7: 0,
            reg_write: 1,
            mem_rw: 0,
            rd: 3,
            branch_or_jump: 0,
            imm: 0,
            rs1: 10,
            rs2: 20,
            pc: 0x8000_0008,
            rs1_idx: 1,
            rs2_idx: 2,
        }
    );
    assert_eq!(opcode(0x0020_81b3), OP_ALU);
    assert_eq!(source_registers(0x0020_81b3), (1, 2));
    assert_eq!(source_registers(0xffff_ffff), (31, 31));
    // sub x31,x30,x29
    let d = issue(0x41df_0fb3, 0, 0, 0);
    assert_eq!((d.func7, d.rd, d.rs1_idx, d.rs2_idx), (0x20, 31, 30, 29));
}

#[test]
fn control_signals_by_opcode() {
    let word = |op: u8| 0x0000_0000u32 | op as u32 | 0x80;
    for (op, reg_write, mem_rw, branch_or_jump) in [
        (OP_ALUI, 1, 0, 0),
        (OP_LOAD, 1, 1, 0),
        (OP_JALR, 1, 0, 1),
        (OP_ALU, 1, 0, 0),
        (OP_LUI, 1, 0, 0),
        (OP_AUIPC, 1, 0, 0),
        (OP_JAL, 1, 0, 1),
        (OP_STORE, 0, 3, 0),
        (OP_BRANCH, 0, 0, 1),
    ] {
        assert!(supported(op));
        let d = issue(word(op), 0, 0, 0);
        assert_eq!((d.opcode, d.reg_write, d.mem_rw, d.branch_or_jump), (op, reg_write, mem_rw, branch_or_jump));
    }
}

#[test]
fn unsupported_opcodes_are_refused() {
    for op in [OP_FENCE, OP_SYSTEM, 0b0101111, 0b1010011, 0, 0x7f] {
        assert!(!supported(op));
        let word = 0x0010_0000 | op as u32;
        assert_eq!(decode(&IfId { instruction: word, pc: 4 }, &QUIET, 0, 0), None);
    }
}

#[test]
fn zero_word_is_a_bubble() {
    assert_eq!(decode(&IfId { instruction: 0, pc: 0x8000_0010 }, &QUIET, 7, 9), Some(bubble()));
}

#[test]
fn taken_branch_squashes_decode() {
    let taken = BranchSignal { branch_or_jump: 1, take_jump: 1, pc: 0x8000_0100 };
    assert!(taken.taken());
    assert_eq!(decode(&IfId { instruction: 0x0020_81b3, pc: 8 }, &taken, 1, 2), Some(bubble()));
    // Even an instruction that decode could not issue is squashed.
    assert_eq!(decode(&IfId { instruction: 0x0000_0073, pc: 8 }, &taken, 1, 2), Some(bubble()));
    let not_taken = BranchSignal { branch_or_jump: 1, take_jump: 0, pc: 0x8000_0100 };
    assert!(!not_taken.taken());
    assert!(decode(&IfId { instruction: 0x0020_81b3, pc: 8 }, &not_taken, 1, 2) != Some(bubble()));
}

#[test]
fn immediates_of_each_format() {
    // addi x1,x0,-1
    assert_eq!(immediate(0xfff0_0093), 0xffff_ffff);
    // addi x1,x0,2047
    assert_eq!(immediate(0x7ff0_0093), 2047);
    // lw x5,-4(x6)
    assert_eq!(immediate(0xffc3_2283), 0xffff_fffc);
    // jalr x0,16(x1)
    assert_eq!(immediate(0x0100_8067), 16);
    // sw x5,-8(x6)
    assert_eq!(immediate(0xfe53_2c23), 0xffff_fff8);
    // sw x5,2047(x6)
    assert_eq!(immediate(0x7e53_2fa3), 2047);
    // beq x1,x2,+8
    assert_eq!(immediate(0x0020_8463), 8);
    // bne x1,x2,-4
    assert_eq!(immediate(0xfe20_9ee3), 0xffff_fffc);
    // beq x0,x0,+4094
    assert_eq!(immediate(0x7e00_0fe3), 4094);
    // beq x0,x0,-4096
    assert_eq!(immediate(0x8000_0063), 0xffff_f000);
    // jal x1,+8
    assert_eq!(immediate(0x0080_00ef), 8);
    // jal x0,-4
    assert_eq!(immediate(0xffdf_f06f), 0xffff_fffc);
    // jal x0,+0xff000
    assert_eq!(immediate(0x000f_f06f), 0x000f_f000);
    // add x3,x1,x2 has none
    assert_eq!(immediate(0x0020_81b3), 0);
}

#[test]
fn upper_immediates_carry_the_low_twelve_bits() {
    // lui x5,0x12345: the field handed to execute is the low twelve bits of
    // the word, and execute shifts it.
    assert_eq!(immediate(0x1234_52b7), 0x2b7);
    assert_eq!(run(0x1234_52b7, 0, 0, 0).alu_out, 0x002b_7000);
    // auipc x5,0x12345
    assert_eq!(immediate(0x1234_5297), 0x297);
    assert_eq!(run(0x1234_5297, 0x8000_0000, 0, 0).alu_out, 0x8029_7000);
}

#[test]
fn assembled_immediates_decode_to_themselves() {
    for imm in [0u32, 1, 5, 0x7ff, 0xffff_f800, 0xffff_ffff, 0xffff_fabc] {
        for op in [OP_ALUI, OP_LOAD, OP_JALR] {
            let word = encode_i(imm, 7, 2, 9, op);
            assert_eq!(immediate(word), imm);
            assert_eq!(opcode(word), op);
            assert_eq!(source_registers(word).0, 7);
        }
        let word = encode_s(imm, 11, 12, 2, OP_STORE);
        assert_eq!(immediate(word), imm);
        assert_eq!(source_registers(word), (12, 11));
    }
    for imm in [0u32, 2, 8, 0xffe, 0xffff_f000, 0xffff_fffe, 0x0aa4] {
        let word = encode_b(imm, 3, 4, 1, OP_BRANCH);
        assert_eq!(immediate(word), imm);
        assert_eq!(source_registers(word), (4, 3));
    }
    for imm in [0u32, 2, 8, 0x000f_fffe, 0xfff0_0000, 0xffff_fffe, 0x0005_5aa4] {
        let word = encode_j(imm, 1, OP_JAL);
        assert_eq!(immediate(word), imm);
    }
    assert_eq!(encode_i(3, 0, 0, 1, OP_ALUI), 0x0030_0093);
    assert_eq!(encode_s(0, 5, 6, 2, OP_STORE), 0x0053_2023);
    assert_eq!(encode_b(8, 2, 1, 0, OP_BRANCH), 0x0020_8463);
    assert_eq!(encode_j(8, 1, OP_JAL), 0x0080_00ef);
}

#[test]
fn word_arithmetic() {
    assert_eq!(wrapping_sum(3, 4), 7);
    assert_eq!(wrapping_sum(0xffff_ffff, 2), 1);
    assert_eq!(wrapping_difference(3, 4), 0xffff_ffff);
    assert_eq!(wrapping_difference(0x8000_0000, 1), 0x7fff_ffff);
    assert!(less_signed(0xffff_ffff, 0));
    assert!(!less_signed(0, 0xffff_ffff));
    assert!(less_signed(0x8000_0000, 0x7fff_ffff));
    assert!(!less_signed(5, 5));
    assert_eq!(shift_left(1, 31), 0x8000_0000);
    assert_eq!(shift_left(1, 32), 1);
    assert_eq!(shift_left(3, 33), 6);
    assert_eq!(shift_right(0x8000_0000, 31), 1);
    assert_eq!(shift_right(0x8000_0000, 63), 1);
    assert_eq!(shift_right_arithmetic(0x8000_0000, 31), 0xffff_ffff);
    assert_eq!(shift_right_arithmetic(0x8000_0000, 4), 0xf800_0000);
    assert_eq!(shift_right_arithmetic(0x4000_0000, 4), 0x0400_0000);
    assert_eq!(shift_right_arithmetic(0xffff_fff0, 36), 0xffff_ffff);
}

#[test]
fn register_operations() {
    let a = 0xffff_fff0u32;
    let b = 0x0000_0024u32;
    assert_eq!(compute_register(0, 0, a, b), 0x14);
    assert_eq!(compute_register(0, 0x20, a, b), 0xffff_ffcc);
    assert_eq!(compute_register(0, 1, a, b), 0);
    assert_eq!(compute_register(1, 0, a, b), 0xffff_ff00);
    assert_eq!(compute_register(2, 0, a, b), 1);
    assert_eq!(compute_register(2, 0, b, a), 0);
    assert_eq!(compute_register(3, 0, a, b), 0);
    assert_eq!(compute_register(3, 0, b, a), 1);
    assert_eq!(compute_register(4, 0, a, b), 0xffff_ffd4);
    assert_eq!(compute_register(5, 0, a, b), 0x0fff_ffff);
    assert_eq!(compute_register(5, 0x20, a, b), 0xffff_ffff);
    assert_eq!(compute_register(5, 1, a, b), 0);
    assert_eq!(compute_register(6, 0, a, b), 0xffff_fff4);
    assert_eq!(compute_register(7, 0, a, b), 0x20);
}

#[test]
fn immediate_operations() {
    let a = 0xffff_fff0u32;
    assert_eq!(compute_immediate(0, 0x7f, a, 0x20), 0x10);
    assert_eq!(compute_immediate(1, 0, a, 4), 0xffff_ff00);
    assert_eq!(compute_immediate(2, 0, a, 0), 1);
    assert_eq!(compute_immediate(3, 0, a, 0xffff_ffff), 1);
    assert_eq!(compute_immediate(4, 0, a, 0xffff_ffff), 0x0f);
    assert_eq!(compute_immediate(5, 0, a, 4), 0x0fff_ffff);
    assert_eq!(compute_immediate(5, 0x20, a, 0x404), 0xffff_ffff);
    assert_eq!(compute_immediate(5, 3, a, 4), 0);
    assert_eq!(compute_immediate(6, 0, a, 0x0f), 0xffff_ffff);
    assert_eq!(compute_immediate(7, 0, a, 0x1f), 0x10);
}

#[test]
fn branch_conditions() {
    let minus_one = 0xffff_ffffu32;
    assert!(resolve_branch(0, 5, 5));
    assert!(!resolve_branch(0, 5, 6));
    assert!(resolve_branch(1, 5, 6));
    assert!(!resolve_branch(1, 5, 5));
    assert!(resolve_branch(4, minus_one, 0));
    assert!(!resolve_branch(4, 0, minus_one));
    assert!(resolve_branch(5, 0, minus_one));
    assert!(resolve_branch(5, 3, 3));
    assert!(!resolve_branch(5, minus_one, 0));
    assert!(resolve_branch(6, 0, minus_one));
    assert!(!resolve_branch(6, minus_one, 0));
    assert!(resolve_branch(7, minus_one, 0));
    assert!(resolve_branch(7, 3, 3));
    assert!(!resolve_branch(2, 3, 3));
    assert!(!resolve_branch(3, 3, 3));
}

#[test]
fn execute_by_opcode() {
    // addi x1,x0,3
    let e = run(0x0030_0093, 0x8000_0000, 0, 0);
    assert_eq!(
        e,
        ExMem {
            reg_write: 1,
            mem_rw: 0,
            rd: 1,
            func3: 0,
            alu_out: 3,
            rs2: 0,
            branch_or_jump: 0,
            take_jump: 0,
            pc: 0x8000_0000,
        }
    );
    // jal x1,+8
    let e = run(0x0080_00ef, 0x8000_0000, 0, 0);
    assert_eq!((e.alu_out, e.pc, e.take_jump, e.branch_or_jump), (0x8000_0004, 0x8000_0008, 1, 1));
    // jalr x0,16(x1)
    let e = run(0x0100_8067, 0x8000_0020, 0x8000_0100, 0);
    assert_eq!((e.alu_out, e.pc, e.take_jump), (0x8000_0024, 0x8000_0110, 1));
    // lw x5,-4(x6)
    let e = run(0xffc3_2283, 0, 0x8001_0010, 0);
    assert_eq!((e.alu_out, e.mem_rw, e.reg_write), (0x8001_000c, 1, 1));
    // sw x5,-8(x6)
    let e = run(0xfe53_2c23, 0, 0x8001_0010, 0xdead_beef);
    assert_eq!((e.alu_out, e.mem_rw, e.reg_write, e.rs2), (0x8001_0008, 3, 0, 0xdead_beef));
    // beq x1,x2,+8, taken and not
    let e = run(0x0020_8463, 0x8000_0008, 1, 1);
    assert_eq!((e.pc, e.take_jump, e.alu_out), (0x8000_0010, 1, 0));
    let e = run(0x0020_8463, 0x8000_0008, 1, 2);
    assert_eq!((e.pc, e.take_jump), (0x8000_0010, 0));
    // bne x1,x2,-4
    let e = run(0xfe20_9ee3, 0x8000_0008, 1, 2);
    assert_eq!((e.pc, e.take_jump), (0x8000_0004, 1));
    // A bubble stays a bubble.
    let e = execute(&bubble(), &NOTHING, &NOTHING);
    assert_eq!((e.reg_write, e.mem_rw, e.take_jump, e.alu_out, e.pc), (0, 0, 0, 0, 0));
}

#[test]
fn forwarding_takes_the_youngest_result() {
    let from_memory = Forward { reg_write: 1, rd: 5, value: 111 };
    let from_writeback = Forward { reg_write: 1, rd: 5, value: 222 };
    assert_eq!(forward_operand(9, 5, &from_memory, &from_writeback), 111);
    assert_eq!(forward_operand(9, 5, &NOTHING, &from_writeback), 222);
    assert_eq!(forward_operand(9, 6, &from_memory, &from_writeback), 9);
    let no_write = Forward { reg_write: 0, rd: 5, value: 333 };
    assert_eq!(forward_operand(9, 5, &no_write, &from_writeback), 222);
    assert_eq!(forward_operand(9, 5, &no_write, &no_write), 9);
    // Only the low five bits of the destination name a register.
    let high_bits = Forward { reg_write: 1, rd: 0x25, value: 444 };
    assert_eq!(high_bits.target(), 5);
    assert!(high_bits.feeds(5));
    assert_eq!(forward_operand(9, 5, &high_bits, &NOTHING), 444);
}

#[test]
fn forwarding_goes_by_the_register_index_alone() {
    // A result addressed to register zero is dropped by the register file,
    // but on the bus it feeds index zero like any other.
    let to_zero = Forward { reg_write: 1, rd: 0, value: 555 };
    assert!(to_zero.feeds(0));
    assert_eq!(forward_operand(0, 0, &to_zero, &NOTHING), 555);
    assert_eq!(forward_operand(0, 0, &NOTHING, &to_zero), 555);
    assert_eq!(forward_operand(0, 0, &NOTHING, &NOTHING), 0);
}

#[test]
fn dependent_pair_needs_no_stall() {
    // add x5,x1,x1 right ahead of add x6,x5,x5
    let first = execute(&issue(0x0010_82b3, 0, 21, 21), &NOTHING, &NOTHING);
    assert_eq!(first.alu_out, 42);
    let forward = Forward { reg_write: first.reg_write, rd: first.rd, value: first.alu_out };
    // The register file still holds the old value of x5 when the second
    // instruction is decoded.
    let second = execute(&issue(0x0052_8333, 4, 1000, 1000), &forward, &NOTHING);
    assert_eq!(second.alu_out, 84);
    assert_eq!(second.rs2, 42);
}
