//! End-to-end runs of small programs on the microcontroller core.

use risc_soc::clock::RunReport;
use risc_soc::device::Device;
use risc_soc::mcu_cache::MCUCache;
use risc_soc::mcu_core::{init_core, DCACHE_BASE, ICACHE_BASE, UART_BASE};
use risc_soc::memory_management_unit::{
    MemoryDevice, MemoryRequest, MemoryRequestType, MemoryResponseType,
};
use risc_soc::pipeline_stage::PipelineStageInterface;
use risc_soc::risc_soc::RiscCore;
use risc_soc::risc_word::WordSize;
use risc_soc::uart::UART;

type Core = RiscCore<MCUCache, Device>;

fn core_with_program(words: &[u32]) -> Core {
    let mut core = init_core(None);
    let mut bytes = Vec::new();
    for w in words {
        bytes.extend_from_slice(&w.to_le_bytes());
    }
    core.icache.as_mut().unwrap().init_mem(0, &bytes);
    core
}

fn reg(core: &Core, index: usize) -> u32 {
    core.registers.read_regs(index, 0).0
}

fn run(core: &mut Core, cycles: u64) -> RunReport {
    core.run(Some(cycles)).expect("the core is runnable")
}

#[test]
fn add_chain() {
    // addi x1,x0,3; addi x2,x0,4; add x3,x1,x2
    let mut core = core_with_program(&[0x0030_0093, 0x0040_0113, 0x0020_81b3]);
    let report = run(&mut core, 7);
    assert_eq!(report, RunReport { cycles: 7, fault: None });
    assert_eq!(reg(&core, 1), 3);
    assert_eq!(reg(&core, 2), 4);
    assert_eq!(reg(&core, 3), 7);
    assert_eq!(reg(&core, 0), 0);
}

#[test]
fn add_chain_is_not_done_a_cycle_earlier() {
    let mut core = core_with_program(&[0x0030_0093, 0x0040_0113, 0x0020_81b3]);
    run(&mut core, 6);
    assert_eq!(reg(&core, 1), 3);
    assert_eq!(reg(&core, 2), 4);
    assert_eq!(reg(&core, 3), 0);
}

#[test]
fn taken_branch() {
    // addi x1,x0,1; addi x2,x0,1; beq x1,x2,+8; addi x3,x0,-339;
    // addi x4,x0,1; addi x5,x0,1
    let mut core = core_with_program(&[
        0x0010_0093,
        0x0010_0113,
        0x0020_8463,
        0xead0_0193,
        0x0010_0213,
        0x0010_0293,
    ]);
    let report = run(&mut core, 12);
    assert_eq!(report.fault, None);
    assert_eq!(reg(&core, 1), 1);
    assert_eq!(reg(&core, 2), 1);
    assert_eq!(reg(&core, 3), 0);
    assert_eq!(reg(&core, 5), 1);
    // The branch is at offset 8 and its target, eight bytes on, is the
    // instruction that writes x4.
    assert_eq!(reg(&core, 4), 1);
}

#[test]
fn jal_and_jalr() {
    // jal x1,+8; addi x2,x0,0x2ad; addi x3,x0,7; jalr x0,0(x1)
    let mut core = core_with_program(&[0x0080_00ef, 0x2ad0_0113, 0x0070_0193, 0x0000_8067]);
    // The jump reaches the memory stage in cycle 3, the third instruction is
    // fetched in that cycle and retires in cycle 7.
    let report = run(&mut core, 8);
    assert_eq!(report.fault, None);
    assert_eq!(reg(&core, 2), 0);
    assert_eq!(reg(&core, 3), 7);
    assert_eq!(reg(&core, 1), ICACHE_BASE as u32 + 4);
}

#[test]
fn store_then_load_word() {
    // sw x5,0(x6); lw x10,0(x6)
    let mut core = core_with_program(&[0x0053_2023, 0x0003_2503]);
    core.registers.write_reg(5, 0xDEAD_BEEF);
    core.registers.write_reg(6, 0x8001_0000);
    let report = run(&mut core, 6);
    assert_eq!(report.fault, None);
    assert_eq!(reg(&core, 10), 0xDEAD_BEEF);
    let stored = core.dcache.as_ref().unwrap().debug(DCACHE_BASE, DCACHE_BASE + 4);
    assert_eq!(stored, vec![0xEF, 0xBE, 0xAD, 0xDE]);
}

#[test]
fn sub_word_sign_extension() {
    // sb x5,4(x6); lb x11,4(x6); lbu x12,4(x6)
    let mut core = core_with_program(&[0x0053_0223, 0x0043_0583, 0x0043_4603]);
    core.registers.write_reg(5, 0xFF);
    core.registers.write_reg(6, 0x8001_0000);
    let report = run(&mut core, 7);
    assert_eq!(report.fault, None);
    assert_eq!(reg(&core, 11), 0xFFFF_FFFF);
    assert_eq!(reg(&core, 12), 0x0000_00FF);
}

#[test]
fn uart_write() {
    // sb x5,4(x8); sb x6,4(x8); sb x7,4(x8)
    let mut core = core_with_program(&[0x0054_0223, 0x0064_0223, 0x0074_0223]);
    core.registers.write_reg(5, b'H' as u32);
    core.registers.write_reg(6, b'I' as u32);
    core.registers.write_reg(7, b'\n' as u32);
    core.registers.write_reg(8, UART_BASE as u32);
    let report = run(&mut core, 6);
    assert_eq!(report.fault, None);
    assert_eq!(core.take_console_output(), b"HI\n".to_vec());
    assert_eq!(core.take_console_output(), Vec::<u8>::new());
}

#[test]
fn uart_read_is_a_fault() {
    // lb x10,4(x8)
    let mut core = core_with_program(&[0x0044_0503]);
    core.registers.write_reg(8, UART_BASE as u32);
    let report = run(&mut core, 10);
    assert_eq!(report.cycles, 3);
    assert_eq!(
        report.fault,
        Some(risc_soc::pipeline_stage::StageError::MemoryFault(MemoryResponseType::NotReadable))
    );
}

#[test]
fn uart_answers_requests() {
    let mut uart = UART::new(
        risc_soc::memory_management_unit::MemoryDeviceType::UART0,
        UART_BASE,
        UART_BASE + 0x100,
    );
    let write = MemoryRequest {
        request_type: MemoryRequestType::WRITE,
        data_address: UART_BASE + 4,
        data_size: WordSize::BYTE,
        data: Some(vec![b'x', 0, 0, 0]),
    };
    assert_eq!(uart.send_data_request(write).status, MemoryResponseType::Valid);
    assert_eq!(uart.take_output(), vec![b'x']);
}

#[test]
fn register_zero_stays_zero() {
    // addi x0,x0,5; add x0,x6,x6; lui x0,1; jal x0,+4; lw x0,0(x6); three
    // bubbles; addi x1,x0,9
    let mut core = core_with_program(&[
        0x0050_0013,
        0x0063_0033,
        0x0000_1037,
        0x0040_006f,
        0x0003_2003,
        0,
        0,
        0,
        0x0090_0093,
    ]);
    core.registers.write_reg(6, 0x8001_0000);
    core.dcache.as_mut().unwrap().init_mem(0, &[0xff; 4]);
    for _ in 0..20 {
        assert_eq!(core.tick(), Ok(()));
        assert_eq!(reg(&core, 0), 0);
    }
    assert_eq!(reg(&core, 1), 9);
}

#[test]
fn program_counter_advances_by_four_on_linear_code() {
    let mut core = core_with_program(&[0x0030_0093, 0x0040_0113, 0x0020_81b3]);
    assert_eq!(core.get_pc(), 0x8000_0000);
    for cycle in 1..=20u32 {
        assert_eq!(core.tick(), Ok(()));
        assert_eq!(core.get_pc(), 0x8000_0000 + 4 * cycle);
    }
}

#[test]
fn program_counter_wraps() {
    let mut core = init_core(None);
    core.set_pc(0xffff_fffc);
    // There is no memory at the top of the address space.
    assert_eq!(
        core.tick(),
        Err(risc_soc::pipeline_stage::StageError::MemoryFault(MemoryResponseType::InvalidAddress))
    );
    assert_eq!(core.get_pc(), 0xffff_fffc);
    assert_eq!(risc_soc::execute::wrapping_sum(0xffff_fffc, 4), 0);
}

#[test]
fn taken_branch_squashes_the_two_instructions_behind_it() {
    // beq x0,x0,+16; sw x5,0(x6); addi x7,x0,1; addi x8,x0,1; addi x9,x0,1;
    // addi x10,x0,1
    let mut core = core_with_program(&[
        0x0000_0863,
        0x0053_2023,
        0x0010_0393,
        0x0010_0413,
        0x0010_0493,
        0x0010_0513,
    ]);
    core.registers.write_reg(5, 0xffff_ffff);
    core.registers.write_reg(6, 0x8001_0000);
    let report = run(&mut core, 4);
    assert_eq!(report.fault, None);
    // The branch was in the memory stage in the last cycle: execute and
    // decode hold bubbles, and fetch has read the target.
    assert_eq!(core.stages[2].data_out.0, vec![0; 18]);
    assert_eq!(core.stages[1].data_out.0, vec![0; 25]);
    assert_eq!(core.stages[0].data_out.get_u32(4), 0x8000_0010);
    assert_eq!(core.get_pc(), 0x8000_0014);
    run(&mut core, 8);
    assert_eq!(core.dcache.as_ref().unwrap().debug(DCACHE_BASE, DCACHE_BASE + 4), vec![0; 4]);
    assert_eq!(reg(&core, 7), 0);
    assert_eq!(reg(&core, 8), 0);
    assert_eq!(reg(&core, 9), 1);
    assert_eq!(reg(&core, 10), 1);
}

#[test]
fn branch_not_taken_squashes_nothing() {
    // bne x0,x0,+16; addi x7,x0,1; addi x8,x0,1
    let mut core = core_with_program(&[0x0000_1863, 0x0010_0393, 0x0010_0413]);
    run(&mut core, 8);
    assert_eq!((reg(&core, 7), reg(&core, 8)), (1, 1));
}

#[test]
fn results_are_forwarded_without_a_stall() {
    // addi x1,x0,21; add x5,x1,x1; add x6,x5,x5; add x7,x6,x5; add x8,x7,x1
    let mut core = core_with_program(&[
        0x0150_0093,
        0x0010_82b3,
        0x0052_8333,
        0x0053_03b3,
        0x0013_8433,
    ]);
    let report = run(&mut core, 9);
    assert_eq!(report.fault, None);
    assert_eq!(reg(&core, 5), 42);
    assert_eq!(reg(&core, 6), 84);
    assert_eq!(reg(&core, 7), 126);
    assert_eq!(reg(&core, 8), 147);
}

#[test]
fn unsupported_opcode_ends_the_run() {
    // addi x1,x0,3; ecall; addi x2,x0,4
    let mut core = core_with_program(&[0x0030_0093, 0x0000_0073, 0x0040_0113]);
    let report = run(&mut core, 20);
    assert_eq!(
        report,
        RunReport {
            cycles: 2,
            fault: Some(risc_soc::pipeline_stage::StageError::UnsupportedOpcode(0x73)),
        }
    );
    assert_eq!(reg(&core, 1), 0);
}

#[test]
fn misaligned_load_ends_the_run() {
    // lw x10,62(x6)
    let mut core = core_with_program(&[0x03e3_2503]);
    core.registers.write_reg(6, 0x8001_0000);
    let report = run(&mut core, 20);
    assert_eq!(report.cycles, 3);
    // The data memory refuses the access and the unit behind it has no
    // device at that address.
    assert_eq!(
        report.fault,
        Some(risc_soc::pipeline_stage::StageError::MemoryFault(MemoryResponseType::InvalidAddress))
    );
}

#[test]
fn a_core_without_caches_cannot_fetch() {
    let mut core = init_core(None);
    core.icache = None;
    assert_eq!(core.tick(), Err(risc_soc::pipeline_stage::StageError::NoCache));
}

#[test]
fn only_the_five_stage_pipeline_runs() {
    let mut core: Core = RiscCore::new(5, None, false);
    assert!(!core.check_pipeline());
    assert_eq!(core.run(Some(1)), Err(risc_soc::risc_soc::CoreError::NotRunnable));
    let mut core = init_core(None);
    assert!(core.check_pipeline());
    core.stages.swap(1, 2);
    assert!(!core.check_pipeline());
    assert_eq!(core.run(None), Err(risc_soc::risc_soc::CoreError::NotRunnable));
    let mut core = init_core(None);
    core.stages[4].output_channel = Some(0);
    assert!(!core.check_pipeline());
    let mut core = init_core(None);
    core.stages[3].input_channel = None;
    assert!(!core.check_pipeline());
}

#[test]
fn a_core_takes_as_many_stages_as_it_was_made_for() {
    let mut core = init_core(None);
    let extra = core.stages.pop().unwrap();
    assert_eq!(core.stages.len(), 4);
    assert_eq!(core.add_stage(extra), Ok(()));
    let mut other = init_core(None);
    let one_more = other.stages.pop().unwrap();
    assert_eq!(core.add_stage(one_more), Err(risc_soc::risc_soc::CoreError::TooManyStages));
    assert_eq!(core.stages.len(), 5);
}

#[test]
fn fresh_core() {
    let core = init_core(Some(1_000_000));
    assert_eq!(core.get_pc(), 0x8000_0000);
    assert_eq!(core.clock_period, Some(1_000_000));
    assert_eq!(core.num_stages, 5);
    assert!(!core.debug);
    for index in 0..32 {
        assert_eq!(reg(&core, index), 0);
    }
    for stage in 0..5 {
        assert!(!core.is_stage_reset(stage));
        assert!(core.is_stage_enabled(stage));
    }
    let names: Vec<&str> = core.stages.iter().map(|s| s.name.as_str()).collect();
    assert_eq!(names, vec!["IF", "ID", "EX", "MEM", "WB"]);
    assert_eq!(core.icache.as_ref().unwrap().start_end_addresses(), (ICACHE_BASE, DCACHE_BASE));
    assert_eq!(core.dcache.as_ref().unwrap().start_end_addresses(), (DCACHE_BASE, DCACHE_BASE + 0x1_0000));
    assert_eq!(
        core.mmu.memory_map(),
        vec![(risc_soc::memory_management_unit::MemoryDeviceType::UART0, UART_BASE, UART_BASE + 0x100)]
    );
}

#[test]
fn reset_line_zeroes_a_stage() {
    // addi x1,x0,3; addi x2,x0,4
    let mut core = core_with_program(&[0x0030_0093, 0x0040_0113]);
    core.reset_stage(1, true);
    assert!(core.is_stage_reset(1));
    run(&mut core, 8);
    // Decode puts out zeros, so nothing reaches the register file.
    assert_eq!(core.stages[1].data_out.0, vec![0; 25]);
    assert_eq!((reg(&core, 1), reg(&core, 2)), (0, 0));
    core.reset_stage(1, false);
    core.set_pc(0x8000_0000);
    run(&mut core, 8);
    assert_eq!((reg(&core, 1), reg(&core, 2)), (3, 4));
}

#[test]
fn reset_line_of_execute_stays_set() {
    // addi x1,x0,3; addi x2,x0,4
    let mut core = core_with_program(&[0x0030_0093, 0x0040_0113]);
    core.reset_stage(2, true);
    for _ in 0..8 {
        run(&mut core, 1);
        // No cycle clears the line, and execute puts out zeros while it is set.
        assert!(core.is_stage_reset(2));
        assert_eq!(core.stages[2].data_out.0, vec![0; 18]);
        assert_eq!(core.stages[2].instruction.0, 0);
    }
    for stage in [0, 1, 3, 4] {
        assert!(!core.is_stage_reset(stage));
    }
    assert_eq!((reg(&core, 1), reg(&core, 2)), (0, 0));
    core.reset_stage(2, false);
    core.set_pc(0x8000_0000);
    run(&mut core, 8);
    assert_eq!((reg(&core, 1), reg(&core, 2)), (3, 4));
}

#[test]
fn taken_branch_leaves_the_control_lines_alone() {
    // addi x1,x0,1; addi x2,x0,1; beq x1,x2,+8; addi x3,x0,-339;
    // addi x4,x0,1; addi x5,x0,1
    let mut core = core_with_program(&[
        0x0010_0093,
        0x0010_0113,
        0x0020_8463,
        0xead0_0193,
        0x0010_0213,
        0x0010_0293,
    ]);
    let mut squashed = 0;
    for cycle in 1..=12u64 {
        run(&mut core, 1);
        for stage in 0..5 {
            assert!(!core.is_stage_reset(stage));
            assert!(core.is_stage_enabled(stage));
        }
        // The branch is in the memory stage in cycle 6: execute puts out
        // zeros at the end of that cycle though its reset line is clear.
        if cycle == 6 {
            assert_eq!(core.stages[2].data_out.0, vec![0; 18]);
            assert_eq!(core.stages[2].instruction.0, 0);
            squashed += 1;
        }
    }
    assert_eq!(squashed, 1);
    assert_eq!((reg(&core, 3), reg(&core, 4), reg(&core, 5)), (0, 1, 1));
}

#[test]
fn cleared_enable_line_holds_a_stage() {
    let mut core = core_with_program(&[0x0030_0093, 0x0040_0113]);
    run(&mut core, 1);
    let held = core.stages[0].data_out.0.clone();
    assert_eq!(held, vec![0x93, 0x00, 0x30, 0x00, 0x00, 0x00, 0x00, 0x80]);
    core.enable_stage(0, false);
    assert!(!core.is_stage_enabled(0));
    run(&mut core, 3);
    // Fetch holds its output and the program counter does not advance.
    assert_eq!(core.stages[0].data_out.0, held);
    assert_eq!(core.get_pc(), 0x8000_0004);
    assert_eq!(core.stages[0].clock_cycle, 4);
    core.enable_stage(0, true);
    run(&mut core, 1);
    assert_eq!(core.get_pc(), 0x8000_0008);
}

#[test]
fn stages_hand_on_the_instruction_with_its_data() {
    let mut core = core_with_program(&[0x0030_0093, 0x0040_0113, 0x0020_81b3]);
    run(&mut core, 3);
    let held: Vec<u32> = core.stages.iter().map(|s| s.get_current_step().1 .0).collect();
    assert_eq!(held, vec![0x0020_81b3, 0x0040_0113, 0x0030_0093, 0, 0]);
    let cycles: Vec<u64> = core.stages.iter().map(|s| s.get_current_step().0).collect();
    assert_eq!(cycles, vec![3; 5]);
}

#[test]
fn debug_flag_reaches_wires_and_stages() {
    let mut core = init_core(None);
    core.enable_debug(true);
    assert!(core.debug);
    assert!(core.stages.iter().all(|s| s.debug));
    assert!(core.cdb.lanes.iter().all(|row| row.iter().all(|wire| wire.debug)));
    core.enable_debug(false);
    assert!(!core.debug && core.stages.iter().all(|s| !s.debug));
    core.set_clock_period(250);
    assert_eq!(core.clock_period, Some(250));
}

#[test]
fn requests_go_to_the_unit_when_the_cache_misses() {
    let mut core = init_core(None);
    let inside = MemoryRequest {
        request_type: MemoryRequestType::READ,
        data_address: DCACHE_BASE + 8,
        data_size: WordSize::HALF,
        data: None,
    };
    let response = core.dcache_request(inside).unwrap();
    assert_eq!((response.data, response.status), (vec![0, 0], MemoryResponseType::CacheHit));
    let to_uart = MemoryRequest {
        request_type: MemoryRequestType::WRITE,
        data_address: UART_BASE + 4,
        data_size: WordSize::BYTE,
        data: Some(vec![b'!']),
    };
    assert_eq!(core.icache_request(to_uart).unwrap().status, MemoryResponseType::Valid);
    assert_eq!(core.take_console_output(), vec![b'!']);
    let nowhere = MemoryRequest {
        request_type: MemoryRequestType::READ,
        data_address: 0x10,
        data_size: WordSize::BYTE,
        data: None,
    };
    assert_eq!(core.icache_request(nowhere).unwrap().status, MemoryResponseType::InvalidAddress);
    core.dcache = None;
    let again = MemoryRequest {
        request_type: MemoryRequestType::READ,
        data_address: DCACHE_BASE,
        data_size: WordSize::BYTE,
        data: None,
    };
    assert_eq!(core.dcache_request(again).unwrap_err(), risc_soc::pipeline_stage::StageError::NoCache);
}

#[test]
fn branch_program_retires_in_eleven_cycles() {
    let program = [0x0010_0093, 0x0010_0113, 0x0020_8463, 0xead0_0193, 0x0010_0213, 0x0010_0293];
    let mut core = core_with_program(&program);
    run(&mut core, 10);
    // The last instruction is in writeback and has not committed yet.
    assert_eq!((reg(&core, 4), reg(&core, 5)), (1, 0));
    run(&mut core, 1);
    let regs: Vec<u32> = (0..6).map(|i| reg(&core, i)).collect();
    assert_eq!(regs, vec![0, 1, 1, 0, 1, 1]);
    // What lies behind the program does not matter to these registers.
    let mut longer = program.to_vec();
    longer.extend_from_slice(&[0x0053_2023, 0x0080_00ef, 0x0000_0013]);
    let mut other = core_with_program(&longer);
    other.registers.write_reg(6, DCACHE_BASE as u32);
    run(&mut other, 11);
    let regs: Vec<u32> = (0..6).map(|i| reg(&other, i)).collect();
    assert_eq!(regs, vec![0, 1, 1, 0, 1, 1]);
}

#[test]
fn jump_program_retires_in_nine_cycles() {
    let mut core = core_with_program(&[0x0080_00ef, 0x2ad0_0113, 0x0070_0193, 0x0000_8067]);
    run(&mut core, 9);
    let regs: Vec<u32> = (0..4).map(|i| reg(&core, i)).collect();
    assert_eq!(regs, vec![0, ICACHE_BASE as u32 + 4, 0, 7]);
    // The return goes back to the instruction after the jump, which writes
    // register two three cycles later.
    run(&mut core, 3);
    assert_eq!(reg(&core, 2), 0x2ad);
}

#[test]
fn store_reaches_memory_in_four_cycles_and_the_load_retires_in_six() {
    for value in [0xDEAD_BEEFu32, 0, 1, 0x8000_0000, 0xFFFF_FFFF] {
        let mut core = core_with_program(&[0x0053_2023, 0x0003_2503]);
        core.registers.write_reg(5, value);
        core.registers.write_reg(6, DCACHE_BASE as u32);
        run(&mut core, 3);
        let stored = core.dcache.as_ref().unwrap().debug(DCACHE_BASE, DCACHE_BASE + 4);
        assert_eq!(stored, vec![0, 0, 0, 0]);
        run(&mut core, 1);
        let stored = core.dcache.as_ref().unwrap().debug(DCACHE_BASE, DCACHE_BASE + 4);
        assert_eq!(stored, value.to_le_bytes().to_vec());
        run(&mut core, 1);
        assert_eq!(reg(&core, 10), 0);
        run(&mut core, 1);
        assert_eq!(reg(&core, 10), value);
    }
}

#[test]
fn port_sends_the_low_byte_of_each_register() {
    let mut core = core_with_program(&[0x0054_0223, 0x0064_0223, 0x0074_0223]);
    core.registers.write_reg(5, 0x1234_5648);
    core.registers.write_reg(6, 0xFFFF_FF49);
    core.registers.write_reg(7, 0x0000_010A);
    core.registers.write_reg(8, UART_BASE as u32);
    run(&mut core, 5);
    assert_eq!(core.take_console_output(), b"HI".to_vec());
    run(&mut core, 1);
    assert_eq!(core.take_console_output(), b"\n".to_vec());
}

#[test]
fn squashed_instructions_leave_what_bubbles_leave() {
    // addi x1,x0,1; beq x1,x1,+12; then two instructions that would write
    // register five and store to memory; then addi x6,x0,6; addi x7,x6,1.
    let with_pair = [0x0010_0093, 0x0010_8663, 0x0630_0293, 0x0010_2023, 0x0060_0313, 0x0013_0393];
    let with_bubbles = [0x0010_0093, 0x0010_8663, 0, 0, 0x0060_0313, 0x0013_0393];
    for cycles in [5u64, 6, 7, 8, 9, 10, 11, 12, 14] {
        let mut a = core_with_program(&with_pair);
        let mut b = core_with_program(&with_bubbles);
        assert_eq!(run(&mut a, cycles), run(&mut b, cycles));
        let regs_a: Vec<u32> = (0..32).map(|i| reg(&a, i)).collect();
        let regs_b: Vec<u32> = (0..32).map(|i| reg(&b, i)).collect();
        assert_eq!(regs_a, regs_b);
        assert_eq!(a.get_pc(), b.get_pc());
        assert_eq!(
            a.dcache.as_ref().unwrap().debug(DCACHE_BASE, DCACHE_BASE + 64),
            b.dcache.as_ref().unwrap().debug(DCACHE_BASE, DCACHE_BASE + 64)
        );
        assert_eq!(reg(&a, 5), 0);
    }
    let mut a = core_with_program(&with_pair);
    run(&mut a, 14);
    assert_eq!((reg(&a, 1), reg(&a, 6), reg(&a, 7)), (1, 6, 7));
}

#[test]
fn requests_leave_the_geometry_of_the_memories() {
    let mut core = core_with_program(&[0x0053_2023, 0x0003_2503, 0x0054_0223]);
    core.registers.write_reg(5, 0x55);
    core.registers.write_reg(6, DCACHE_BASE as u32);
    core.registers.write_reg(8, UART_BASE as u32);
    let shape = |core: &Core| {
        let i = core.icache.as_ref().unwrap();
        let d = core.dcache.as_ref().unwrap();
        (
            (i.line_size, i.num_lines, i.start_end_addresses(), i.get_memory_type()),
            (d.line_size, d.num_lines, d.start_end_addresses(), d.get_memory_type()),
            core.mmu.memory_map(),
        )
    };
    let before = shape(&core);
    for _ in 0..8 {
        run(&mut core, 1);
        assert_eq!(shape(&core), before);
    }
}
