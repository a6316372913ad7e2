//! Small programs, loaded as ELF images and run one cycle at a time.

use risc_soc::decode::{
    encode_b, encode_i, encode_j, encode_s, OP_ALUI, OP_BRANCH, OP_JAL, OP_JALR, OP_LOAD, OP_STORE,
};
use risc_soc::mcu_cache::MCUCache;
use risc_soc::mcu_core::{init_core, load_elf};
use risc_soc::memory_management_unit::MemoryDevice;
use risc_soc::risc_soc::RiscCore;
use risc_soc::device::Device;

/// A little-endian 32-bit ELF image whose `.text` section holds `program` at
/// the reset vector.
fn elf_with_text(program: &[u32]) -> Vec<u8> {
    let mut text = Vec::new();
    for word in program {
        text.extend_from_slice(&word.to_le_bytes());
    }
    let names = b"\0.text\0.shstrtab\0";
    let text_offset = 52u32;
    let names_offset = text_offset + text.len() as u32;
    let shoff = names_offset + names.len() as u32;

    let mut image = vec![0x7f, b'E', b'L', b'F', 1, 1, 1, 0, 0, 0, 0, 0, 0, 0, 0, 0];
    image.extend_from_slice(&2u16.to_le_bytes());
    image.extend_from_slice(&0xf3u16.to_le_bytes());
    image.extend_from_slice(&1u32.to_le_bytes());
    image.extend_from_slice(&0x8000_0000u32.to_le_bytes());
    image.extend_from_slice(&0u32.to_le_bytes());
    image.extend_from_slice(&shoff.to_le_bytes());
    image.extend_from_slice(&0u32.to_le_bytes());
    for half in [52u16, 32, 0, 40, 3, 2] {
        image.extend_from_slice(&half.to_le_bytes());
    }
    image.extend_from_slice(&text);
    image.extend_from_slice(names);
    let headers: [[u32; 10]; 3] = [
        [0; 10],
        [1, 1, 6, 0x8000_0000, text_offset, text.len() as u32, 0, 0, 4, 0],
        [7, 3, 0, 0, names_offset, names.len() as u32, 0, 0, 1, 0],
    ];
    for header in headers {
        for field in header {
            image.extend_from_slice(&field.to_le_bytes());
        }
    }
    image
}

fn registers(core: &RiscCore<MCUCache, Device>) -> String {
    let mut text = String::new();
    for index in 0..32 {
        text.push_str(&format!("x{}={:X}\n", index, core.registers.read_regs(index, 0).0));
    }
    text
}

fn reg(core: &RiscCore<MCUCache, Device>, index: usize) -> u32 {
    core.registers.read_regs(index, 0).0
}

fn addi(rd: u8, rs1: u8, imm: u32) -> u32 {
    encode_i(imm, rs1, 0, rd, OP_ALUI)
}

fn slli(rd: u8, rs1: u8, by: u32) -> u32 {
    encode_i(by, rs1, 1, rd, OP_ALUI)
}

fn add(rd: u8, rs1: u8, rs2: u8) -> u32 {
    (rs2 as u32) << 20 | (rs1 as u32) << 15 | (rd as u32) << 7 | 0x33
}

#[test]
fn test_add() {
    let mut rv32i_core = init_core(None);
    rv32i_core.enable_debug(true);
    let image = elf_with_text(&[addi(1, 0, 3), addi(2, 0, 4), add(3, 1, 2)]);
    load_elf(&mut rv32i_core, &image).unwrap();
    for _i in 0..11 {
        rv32i_core.run(Some(1)).unwrap();
    }
    println!("{}", registers(&rv32i_core));
    assert_eq!((reg(&rv32i_core, 1), reg(&rv32i_core, 2), reg(&rv32i_core, 3)), (3, 4, 7));
}

#[test]
fn test_branch() {
    let mut rv32i_core = init_core(None);
    rv32i_core.enable_debug(true);
    // Counts x1 down from 3 to 0 and then sets x2.
    let image = elf_with_text(&[
        addi(1, 0, 3),
        addi(1, 1, 0xffff_ffff),
        encode_b(0xffff_fffc, 0, 1, 1, OP_BRANCH),
        addi(2, 0, 9),
    ]);
    load_elf(&mut rv32i_core, &image).unwrap();
    for _i in 0..15 {
        rv32i_core.run(Some(1)).unwrap();
    }
    println!("{}", registers(&rv32i_core));
    // Each taken branch costs two bubbles: after fifteen cycles the count is
    // down and the instruction behind the loop retires in the next cycle.
    assert_eq!((reg(&rv32i_core, 1), reg(&rv32i_core, 2)), (0, 0));
    rv32i_core.run(Some(1)).unwrap();
    assert_eq!((reg(&rv32i_core, 1), reg(&rv32i_core, 2)), (0, 9));
}

#[test]
fn test_jump() {
    let mut rv32i_core = init_core(None);
    rv32i_core.enable_debug(true);
    // Calls the routine at offset 12, which returns to offset 4; offset 8
    // jumps to itself.
    let image = elf_with_text(&[
        encode_j(12, 1, OP_JAL),
        addi(3, 0, 7),
        encode_j(0, 0, OP_JAL),
        addi(2, 0, 5),
        encode_i(0, 1, 0, 0, OP_JALR),
    ]);
    load_elf(&mut rv32i_core, &image).unwrap();
    for _i in 0..15 {
        rv32i_core.run(Some(1)).unwrap();
    }
    println!("{}", registers(&rv32i_core));
    assert_eq!(reg(&rv32i_core, 1), 0x8000_0004);
    assert_eq!(reg(&rv32i_core, 2), 5);
    assert_eq!(reg(&rv32i_core, 3), 7);
}

#[test]
fn test_memory() {
    let mut rv32i_core = init_core(None);
    rv32i_core.enable_debug(true);
    let image = elf_with_text(&[
        // x6 = 0x8001_0000
        addi(6, 0, 1),
        slli(6, 6, 31),
        addi(7, 0, 1),
        slli(7, 7, 16),
        add(6, 6, 7),
        // x5 = 0x5a5 - 0x800 = 0xffff_fda5
        addi(5, 0, 0x5a5),
        addi(5, 5, 0xffff_f800),
        // sw x5,0(x6); sh x5,6(x6); sb x5,9(x6)
        encode_s(0, 5, 6, 2, OP_STORE),
        encode_s(6, 5, 6, 1, OP_STORE),
        encode_s(9, 5, 6, 0, OP_STORE),
        // lw x10,0(x6); lh x11,6(x6); lhu x12,6(x6); lb x13,9(x6); lbu x14,9(x6)
        encode_i(0, 6, 2, 10, OP_LOAD),
        encode_i(6, 6, 1, 11, OP_LOAD),
        encode_i(6, 6, 5, 12, OP_LOAD),
        encode_i(9, 6, 0, 13, OP_LOAD),
        encode_i(9, 6, 4, 14, OP_LOAD),
    ]);
    load_elf(&mut rv32i_core, &image).unwrap();
    for _i in 0..48 {
        rv32i_core.run(Some(1)).unwrap();
    }
    let stored = rv32i_core.dcache.as_ref().unwrap().debug(0x8001_0000, 0x8001_0010);
    println!("{:X?}", stored);
    assert_eq!(stored, vec![0xa5, 0xfd, 0xff, 0xff, 0, 0, 0xa5, 0xfd, 0, 0xa5, 0, 0, 0, 0, 0, 0]);
    assert_eq!(reg(&rv32i_core, 10), 0xffff_fda5);
    assert_eq!(reg(&rv32i_core, 11), 0xffff_fda5);
    assert_eq!(reg(&rv32i_core, 12), 0x0000_fda5);
    assert_eq!(reg(&rv32i_core, 13), 0xffff_ffa5);
    assert_eq!(reg(&rv32i_core, 14), 0x0000_00a5);
}
