//! Payloads, records, wires, the bus, registers and single stages.

use risc_soc::cdb::CommonDataBus;
use risc_soc::clock::{clock_pacing, Pacing};
use risc_soc::fetch::{complete_fetch, instruction_request, select_address};
use risc_soc::memory::{complete_access, is_success, load_value, memory_access, memory_signals};
use risc_soc::memory_management_unit::{MemoryRequestType, MemoryResponse, MemoryResponseType};
use risc_soc::payload::{BranchSignal, ExMem, Forward, IdEx, IfId, MemWb};
use risc_soc::pipeline_stage::{
    FlipFlop, Instruction, PipelineData, PipelinePayload, PipelineStage, PipelineStageInterface,
    StageError, StageLogic,
};
use risc_soc::risc_soc::Registers;
use risc_soc::risc_word::{push_word, u16_from_le, u32_from_le, word_to_le, zeros, WordSize};
use risc_soc::wire::Wire;
use risc_soc::writeback::writeback;

#[test]
fn little_endian_words() {
    assert_eq!(u16_from_le(0x34, 0x12), 0x1234);
    assert_eq!(u32_from_le(0xef, 0xbe, 0xad, 0xde), 0xdead_beef);
    assert_eq!(word_to_le(0xdead_beef), vec![0xef, 0xbe, 0xad, 0xde]);
    assert_eq!(word_to_le(1), vec![1, 0, 0, 0]);
    let mut out = vec![9];
    push_word(&mut out, 0x0102_0304);
    assert_eq!(out, vec![9, 4, 3, 2, 1]);
    assert_eq!(zeros(3), vec![0, 0, 0]);
    assert_eq!(zeros(0), Vec::<u8>::new());
}

#[test]
fn payload_accessors() {
    let mut p = PipelineData::default();
    assert!(p.is_empty());
    assert_eq!(p.size(), 0);
    p.push_bytes(vec![0x01, 0x02, 0x03, 0x04]);
    p.push_bytes(vec![0x05, 0x06, 0x07, 0x08, 0x09]);
    assert!(!p.is_empty());
    assert_eq!(p.size(), 9);
    assert_eq!(p.get_u8(0), 0x01);
    assert_eq!(p.get_u8(8), 0x09);
    assert_eq!(p.get_u16(0), 0x0201);
    assert_eq!(p.get_u16(7), 0x0908);
    assert_eq!(p.get_u32(0), 0x0403_0201);
    assert_eq!(p.get_u32(5), 0x0908_0706);
    assert_eq!(p.get_u64(0), 0x0807_0605_0403_0201);
    assert_eq!(p.get_u64(1), 0x0908_0706_0504_0302);
    assert_eq!(p.clone().0, p.0);
    assert_eq!(PipelineData::zeroed(4).0, vec![0; 4]);
    let high = PipelineData(vec![0xff; 8]);
    assert_eq!(high.get_u64(0), u64::MAX);
    assert_eq!(high.get_u32(4), u32::MAX);
    assert_eq!(high.get_u16(6), u16::MAX);
}

#[test]
fn records_have_fixed_layouts() {
    let f = IfId { instruction: 0x0030_0093, pc: 0x8000_0004 };
    assert_eq!(f.encode().0, vec![0x93, 0x00, 0x30, 0x00, 0x04, 0x00, 0x00, 0x80]);
    assert_eq!(IfId::parse(&f.encode()), f);

    let d = IdEx {
        opcode: 1,
        func3: 2,
        func7: 3,
        reg_write: 4,
        mem_rw: 5,
        rd: 6,
        branch_or_jump: 7,
        imm: 0x0b0a_0908,
        rs1: 0x0f0e_0d0c,
        rs2: 0x1312_1110,
        pc: 0x1716_1514,
        rs1_idx: 0x18,
        rs2_idx: 0x19,
    };
    assert_eq!(d.encode().0, (1..=25).collect::<Vec<u8>>());
    assert_eq!(IdEx::parse(&d.encode()), d);

    let e = ExMem {
        reg_write: 1,
        mem_rw: 2,
        rd: 3,
        func3: 4,
        alu_out: 0x0807_0605,
        rs2: 0x0c0b_0a09,
        branch_or_jump: 13,
        take_jump: 14,
        pc: 0x1211_100f,
    };
    assert_eq!(e.encode().0, (1..=18).collect::<Vec<u8>>());
    assert_eq!(ExMem::parse(&e.encode()), e);

    let w = MemWb { reg_write: 1, reg_src: 2, rd: 3, alu_out: 0x0706_0504, mem_value: 0x0b0a_0908 };
    assert_eq!(w.encode().0, (1..=11).collect::<Vec<u8>>());
    assert_eq!(MemWb::parse(&w.encode()), w);

    let b = BranchSignal { branch_or_jump: 1, take_jump: 2, pc: 0x0605_0403 };
    assert_eq!(b.encode().0, (1..=6).collect::<Vec<u8>>());
    assert_eq!(BranchSignal::parse(&b.encode()), b);

    let r = Forward { reg_write: 1, rd: 2, value: 0x0605_0403 };
    assert_eq!(r.encode().0, (1..=6).collect::<Vec<u8>>());
    assert_eq!(Forward::parse(&r.encode()), r);
}

#[test]
fn short_payloads_are_bubbles() {
    let zero = IdEx::parse(&PipelineData::zeroed(25));
    assert_eq!(IdEx::parse(&PipelineData::default()), zero);
    assert_eq!(IdEx::parse(&PipelineData(vec![0xff; 24])), zero);
    assert_eq!(zero.encode().0, vec![0; 25]);
    assert_eq!(IfId::parse(&PipelineData(vec![1; 7])), IfId { instruction: 0, pc: 0 });
    assert_eq!(ExMem::parse(&PipelineData(vec![1; 17])).mem_rw, 0);
    assert_eq!(MemWb::parse(&PipelineData(vec![1; 10])).reg_write, 0);
    assert!(!BranchSignal::parse(&PipelineData(vec![1; 5])).taken());
    assert!(!Forward::parse(&PipelineData(vec![1; 5])).feeds(1));
    // A payload longer than the layout is read from its start.
    assert_eq!(Forward::parse(&PipelineData(vec![1, 2, 3, 0, 0, 0, 9, 9])), Forward { reg_write: 1, rd: 2, value: 3 });
}

#[test]
fn branch_signals_need_both_flags() {
    let signal = |b, t| BranchSignal { branch_or_jump: b, take_jump: t, pc: 0 };
    assert!(signal(1, 1).taken());
    assert!(!signal(1, 0).taken());
    assert!(!signal(0, 1).taken());
    assert!(!signal(0, 0).taken());
    // Taken is the conjunction of the two flags, bit by bit, being one.
    assert!(signal(3, 1).taken());
    assert!(signal(1, 3).taken());
    assert!(!signal(2, 1).taken());
    assert!(!signal(3, 3).taken());
    assert!(!signal(2, 3).taken());
    assert!(!signal(255, 255).taken());
}

#[test]
fn registers_drop_writes_to_register_zero() {
    let mut registers = Registers::default();
    assert_eq!(registers.read_regs(0, 31), (0, 0));
    registers.write_reg(0, 0xdead_beef);
    registers.write_reg(1, 11);
    registers.write_reg(31, 0xffff_ffff);
    assert_eq!(registers.read_regs(0, 1), (0, 11));
    assert_eq!(registers.read_regs(31, 0), (0xffff_ffff, 0));
    registers.write_reg(1, 12);
    assert_eq!(registers.read_regs(1, 1), (12, 12));
}

#[test]
fn wire_is_driven_for_a_cycle() {
    let mut wire = Wire::new(Some(1_000), false);
    assert!(!wire.is_driven());
    // The wait for an undriven wire is bounded: it reads as the empty payload.
    assert_eq!(wire.read().0, Vec::<u8>::new());
    wire.assign(PipelineData(vec![1, 2, 3]));
    assert!(wire.is_driven());
    assert_eq!(wire.read().0, vec![1, 2, 3]);
    assert_eq!(wire.read().0, vec![1, 2, 3]);
    wire.assign(PipelineData(vec![4]));
    assert_eq!(wire.read().0, vec![4]);
    wire.enable_debug(true);
    assert!(wire.debug);
    assert_eq!(wire.critical_path, Some(1_000));
    wire.clear();
    assert!(!wire.is_driven());
    let mut unbounded = Wire::new(None, true);
    unbounded.assign(PipelineData(vec![]));
    assert!(unbounded.is_driven());
    assert_eq!(unbounded.read().0, Vec::<u8>::new());
}

#[test]
fn wire_tells_a_wait_that_ran_out_from_an_empty_payload() {
    let mut wire = Wire::new(Some(1_000), false);
    assert!(wire.read_in_time().is_none());
    assert_eq!(wire.read().0, Vec::<u8>::new());
    wire.assign(PipelineData(vec![]));
    // Driven with the empty payload, the wire reads the same but in time.
    assert_eq!(wire.read().0, Vec::<u8>::new());
    assert_eq!(wire.read_in_time().map(|d| d.0), Some(vec![]));
    wire.assign(PipelineData(vec![9, 8]));
    assert_eq!(wire.read_in_time().map(|d| d.0), Some(vec![9, 8]));
    wire.clear();
    assert!(wire.read_in_time().is_none());
}

#[test]
fn bus_tells_a_wait_that_ran_out() {
    let mut bus = CommonDataBus::new(5, Some(10), false);
    assert!(bus.pull_in_time(3, 1).is_none());
    bus.assign(3, 1, PipelineData(vec![]));
    assert_eq!(bus.pull_in_time(3, 1).map(|d| d.0), Some(vec![]));
    assert!(bus.pull_in_time(1, 3).is_none());
    bus.assign(3, 2, PipelineData(vec![5]));
    assert_eq!(bus.pull_in_time(3, 2).map(|d| d.0), Some(vec![5]));
    bus.clear(3);
    assert!(bus.pull_in_time(3, 1).is_none());
    assert!(bus.pull_in_time(3, 2).is_none());
}

#[test]
fn bus_keeps_debug_flags_when_driven_and_cleared() {
    let mut bus = CommonDataBus::new(3, Some(10), false);
    bus.enable_debug(true);
    bus.assign(1, 2, PipelineData(vec![1]));
    assert!(bus.lanes.iter().all(|row| row.iter().all(|wire| wire.debug)));
    bus.clear(1);
    assert!(bus.lanes.iter().all(|row| row.iter().all(|wire| wire.debug)));
    assert!(bus.lanes.iter().all(|row| row.iter().all(|wire| wire.critical_path == Some(10))));
    bus.enable_debug(false);
    bus.assign(0, 0, PipelineData(vec![2]));
    bus.clear(0);
    assert!(bus.lanes.iter().all(|row| row.iter().all(|wire| !wire.debug)));
}

#[test]
fn bus_lanes_are_independent() {
    let mut bus = CommonDataBus::new(5, Some(10), false);
    assert_eq!(bus.lanes.len(), 5);
    for from in 0..5 {
        for to in 0..5 {
            assert_eq!(bus.pull(from, to).0, Vec::<u8>::new());
        }
    }
    bus.assign(3, 0, PipelineData(vec![30]));
    bus.assign(3, 1, PipelineData(vec![31]));
    bus.assign(4, 1, PipelineData(vec![41]));
    bus.assign(1, 3, PipelineData(vec![13]));
    assert_eq!(bus.pull(3, 0).0, vec![30]);
    assert_eq!(bus.pull(3, 1).0, vec![31]);
    assert_eq!(bus.pull(4, 1).0, vec![41]);
    assert_eq!(bus.pull(1, 3).0, vec![13]);
    assert_eq!(bus.pull(0, 3).0, Vec::<u8>::new());
    bus.clear(3);
    assert_eq!(bus.pull(3, 0).0, Vec::<u8>::new());
    assert_eq!(bus.pull(3, 1).0, Vec::<u8>::new());
    assert_eq!(bus.pull(4, 1).0, vec![41]);
    assert_eq!(bus.pull(1, 3).0, vec![13]);
    bus.enable_debug(true);
    assert!(bus.lanes.iter().all(|row| row.iter().all(|wire| wire.debug)));
    assert_eq!(bus.pull(4, 1).0, vec![41]);
    let empty = CommonDataBus::new(0, None, false);
    assert_eq!(empty.lanes.len(), 0);
}

#[test]
fn flip_flop_holds_one_payload() {
    let mut register = FlipFlop::new();
    assert!(register.try_recv().is_none());
    register.send(PipelinePayload { instruction: Instruction(7), data: PipelineData(vec![1]) });
    let found = register.try_recv().unwrap();
    assert_eq!((found.instruction, found.data.0), (Instruction(7), vec![1]));
    assert!(register.try_recv().is_none());
    // Emptied, the register takes the next payload.
    register.send(PipelinePayload { instruction: Instruction(8), data: PipelineData(vec![2]) });
    let found = register.try_recv().unwrap();
    assert_eq!((found.instruction, found.data.0), (Instruction(8), vec![2]));
    assert!(register.try_recv().is_none());
    let copy = PipelinePayload::default().clone();
    assert_eq!((copy.instruction, copy.data.0), (Instruction(0), vec![]));
}

#[test]
fn new_stage_holds_a_bubble() {
    let mut stage = PipelineStage::new(
        "EX".to_string(),
        2,
        25,
        18,
        StageLogic::Execute,
        Some(FlipFlop::new()),
        Some(3),
    );
    assert_eq!(stage.get_current_step(), (0, Instruction(0)));
    {
        let (data_in, data_out) = stage.extract_data();
        assert_eq!((data_in.0.clone(), data_out.0.clone()), (vec![0; 25], vec![0; 18]));
    }
    assert_eq!((stage.name.as_str(), stage.index, stage.output_channel), ("EX", 2, Some(3)));
    assert!(!stage.debug);
    stage.enable_debug(true);
    assert!(stage.debug);
    assert_eq!(stage.get_current_step(), (0, Instruction(0)));
}

#[test]
fn memory_stage_signals_and_requests() {
    let e = ExMem {
        reg_write: 1,
        mem_rw: 0,
        rd: 9,
        func3: 2,
        alu_out: 0x8001_0000,
        rs2: 0xdead_beef,
        branch_or_jump: 1,
        take_jump: 1,
        pc: 0x8000_0040,
    };
    let (signal, forward) = memory_signals(&e);
    assert_eq!(signal, BranchSignal { branch_or_jump: 1, take_jump: 1, pc: 0x8000_0040 });
    assert_eq!(forward, Forward { reg_write: 1, rd: 9, value: 0x8001_0000 });
    assert!(memory_access(&e).is_none());
    assert!(memory_access(&ExMem { mem_rw: 2, ..e }).is_none());

    for (func3, size) in [(0, WordSize::BYTE), (4, WordSize::BYTE), (1, WordSize::HALF), (5, WordSize::HALF), (2, WordSize::WORD), (7, WordSize::WORD)] {
        let load = memory_access(&ExMem { mem_rw: 1, func3, ..e }).unwrap();
        assert_eq!(load.request_type, MemoryRequestType::READ);
        assert_eq!((load.data_address, load.data_size, load.data), (0x8001_0000, size, None));
    }
    for (func3, size, bytes) in [
        (0, WordSize::BYTE, [0xef, 0, 0, 0]),
        (1, WordSize::HALF, [0xef, 0xbe, 0, 0]),
        (2, WordSize::WORD, [0xef, 0xbe, 0xad, 0xde]),
        (5, WordSize::WORD, [0xef, 0xbe, 0xad, 0xde]),
    ] {
        let store = memory_access(&ExMem { mem_rw: 3, func3, ..e }).unwrap();
        assert_eq!(store.request_type, MemoryRequestType::WRITE);
        assert!(store.is_well_formed());
        assert_eq!((store.data_address, store.data_size, store.data), (0x8001_0000, size, Some(bytes.to_vec())));
    }
}

#[test]
fn loads_extend_what_they_read() {
    assert_eq!(load_value(0, &vec![0x7f]), 0x0000_007f);
    assert_eq!(load_value(0, &vec![0x80]), 0xffff_ff80);
    assert_eq!(load_value(0, &vec![0xff]), 0xffff_ffff);
    assert_eq!(load_value(4, &vec![0xff]), 0x0000_00ff);
    assert_eq!(load_value(1, &vec![0xff, 0x7f]), 0x0000_7fff);
    assert_eq!(load_value(1, &vec![0x00, 0x80]), 0xffff_8000);
    assert_eq!(load_value(5, &vec![0x00, 0x80]), 0x0000_8000);
    assert_eq!(load_value(2, &vec![0xef, 0xbe, 0xad, 0xde]), 0xdead_beef);
    assert_eq!(load_value(3, &vec![1, 0, 0, 0x80]), 0x8000_0001);
}

#[test]
fn memory_stage_outcomes() {
    let e = ExMem {
        reg_write: 1,
        mem_rw: 1,
        rd: 9,
        func3: 0,
        alu_out: 0x8001_0000,
        rs2: 0,
        branch_or_jump: 0,
        take_jump: 0,
        pc: 0,
    };
    let hit = |data: Vec<u8>| MemoryResponse { data, status: MemoryResponseType::CacheHit };
    assert_eq!(
        complete_access(&e, &hit(vec![0x80])),
        Ok(MemWb { reg_write: 1, reg_src: 1, rd: 9, alu_out: 0x8001_0000, mem_value: 0xffff_ff80 })
    );
    assert_eq!(complete_access(&e, &hit(vec![])), Err(StageError::WrongDataLength));
    assert_eq!(complete_access(&e, &hit(vec![1, 2])), Err(StageError::WrongDataLength));
    let valid = MemoryResponse { data: vec![5], status: MemoryResponseType::Valid };
    assert_eq!(complete_access(&e, &valid).unwrap().mem_value, 5);
    let store = ExMem { mem_rw: 3, reg_write: 0, ..e };
    assert_eq!(
        complete_access(&store, &hit(vec![])),
        Ok(MemWb { reg_write: 0, reg_src: 0, rd: 9, alu_out: 0x8001_0000, mem_value: 0 })
    );
    for status in [
        MemoryResponseType::CacheMiss,
        MemoryResponseType::InvalidAddress,
        MemoryResponseType::UnalignedAddress,
        MemoryResponseType::NotWritable,
        MemoryResponseType::NotReadable,
        MemoryResponseType::NotExecutable,
        MemoryResponseType::WrongMemoryMap,
    ] {
        assert!(!is_success(status));
        let refused = MemoryResponse { data: vec![1], status };
        assert_eq!(complete_access(&e, &refused), Err(StageError::MemoryFault(status)));
        assert_eq!(complete_access(&store, &refused), Err(StageError::MemoryFault(status)));
    }
    assert!(is_success(MemoryResponseType::CacheHit) && is_success(MemoryResponseType::Valid));
}

#[test]
fn writeback_chooses_the_committed_value() {
    let w = MemWb { reg_write: 1, reg_src: 0, rd: 7, alu_out: 11, mem_value: 22 };
    assert_eq!(writeback(&w), Forward { reg_write: 1, rd: 7, value: 11 });
    assert_eq!(writeback(&MemWb { reg_src: 1, ..w }), Forward { reg_write: 1, rd: 7, value: 22 });
    assert_eq!(writeback(&MemWb { reg_src: 2, reg_write: 0, ..w }), Forward { reg_write: 0, rd: 7, value: 11 });
}

#[test]
fn fetch_follows_a_taken_branch() {
    let taken = BranchSignal { branch_or_jump: 1, take_jump: 1, pc: 0x8000_0100 };
    let not_taken = BranchSignal { branch_or_jump: 1, take_jump: 0, pc: 0x8000_0100 };
    assert_eq!(select_address(0x8000_0010, &taken), 0x8000_0100);
    assert_eq!(select_address(0x8000_0010, &not_taken), 0x8000_0010);
    let request = instruction_request(0x8000_0010);
    assert_eq!(request.request_type, MemoryRequestType::READ);
    assert_eq!((request.data_address, request.data_size, request.data), (0x8000_0010, WordSize::WORD, None));
}

#[test]
fn fetch_outcomes() {
    let hit = MemoryResponse { data: vec![0x93, 0x00, 0x30, 0x00], status: MemoryResponseType::CacheHit };
    assert_eq!(complete_fetch(0x8000_0004, &hit), Ok(IfId { instruction: 0x0030_0093, pc: 0x8000_0004 }));
    let short = MemoryResponse { data: vec![0x93, 0x00], status: MemoryResponseType::Valid };
    assert_eq!(complete_fetch(0, &short), Err(StageError::WrongDataLength));
    let miss = MemoryResponse { data: vec![], status: MemoryResponseType::InvalidAddress };
    assert_eq!(complete_fetch(0, &miss), Err(StageError::MemoryFault(MemoryResponseType::InvalidAddress)));
}

#[test]
fn pacing_of_the_clock() {
    assert_eq!(clock_pacing(None, 500), Pacing::OnTime);
    assert_eq!(clock_pacing(Some(1_000), 400), Pacing::Sleep(600));
    assert_eq!(clock_pacing(Some(1_000), 1_000), Pacing::OnTime);
    assert_eq!(clock_pacing(Some(1_000), 1_250), Pacing::Overrun(250));
    assert_eq!(clock_pacing(Some(0), 0), Pacing::OnTime);
    assert_eq!(clock_pacing(Some(u128::MAX), 0), Pacing::Sleep(u128::MAX));
}
