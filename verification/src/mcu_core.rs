//! The microcontroller configuration: a five-stage RV32I pipeline with an
//! instruction memory, a data memory above it, and a serial port.

use crate::cache::Cache;
use crate::clock::stage_in_place;
use crate::device::Device;
use crate::elf::{loadable_sections, LoadError};
use crate::mcu_cache::MCUCache;
use crate::memory_management_unit::{MemoryDevice, MemoryDeviceType};
use crate::payload::{EX_MEM_SIZE, ID_EX_SIZE, IF_ID_SIZE, MEM_WB_SIZE};
use crate::pipeline_stage::{
    FlipFlop, Instruction, PipelineStage, PipelineStageInterface, StageLogic,
};
use crate::risc_soc::{PipelineControlSignals, RiscCore, NUM_REGISTERS, RESET_VECTOR};
use crate::risc_word::{zero_bytes, Address};
use crate::uart::UART;
use vstd::prelude::*;

verus! {

/// Index of the fetch stage.
pub const IF_STAGE: usize = 0;

/// Index of the decode stage.
pub const ID_STAGE: usize = 1;

/// Index of the execute stage.
pub const EX_STAGE: usize = 2;

/// Index of the memory stage.
pub const MEM_STAGE: usize = 3;

/// Index of the writeback stage.
pub const WB_STAGE: usize = 4;

/// Number of stages of the pipeline.
pub const NUM_STAGES: usize = 5;

/// First address of the instruction memory.
pub const ICACHE_BASE: Address = 0x8000_0000;

/// Bytes in a line of the two memories.
pub const LINE_SIZE: usize = 64;

/// Lines in each of the two memories.
pub const NUM_LINES: usize = 1024;

/// First address of the data memory: the address after the last of the
/// instruction memory.
pub const DCACHE_BASE: Address = 0x8001_0000;

/// First address of the serial port.
pub const UART_BASE: Address = 0x4060_0000;

/// The address after the last of the serial port.
pub const UART_END: Address = 0x4060_0100;

/// Whether a stage is as new: at cycle zero, holding a bubble, with all-zero
/// registers and an empty input register.
pub open spec fn stage_is_fresh(stage: PipelineStage) -> bool {
    &&& stage.clock_cycle == 0
    &&& stage.instruction == Instruction(0)
    &&& stage.data_in@ == zero_bytes(stage.size_in as nat)
    &&& stage.data_out@ == zero_bytes(stage.size_out as nat)
    &&& (stage.input_channel.is_some() ==> stage.input_channel.unwrap().held().is_none())
    &&& !stage.debug
}

/// The core of the microcontroller: five stages, an instruction memory of
/// 64 KiB at `ICACHE_BASE`, a data memory of the same size right above it,
/// and the serial port behind the memory management unit, which can take
/// direct memories beside it. All memory and all registers are zero and the
/// program counter is at the reset vector.
#[verifier::rlimit(40)]
pub fn init_core(clock_period: Option<u128>) -> (r: RiscCore<MCUCache, Device>)
    ensures
        r.well_formed(),
        r.is_rv32i_pipeline(),
        r.num_stages == NUM_STAGES,
        r.clock_period == clock_period,
        r.cdb.critical_path == clock_period,
        !r.debug,
        r.program_counter == RESET_VECTOR,
        forall|i: int| 0 <= i < NUM_REGISTERS ==> r.registers@[i] == 0,
        forall|i: int|
            0 <= i < NUM_STAGES ==> r.pipeline_control_signals@[i] == (PipelineControlSignals {
                reset: false,
                enable: true,
            }),
        forall|i: int| 0 <= i < NUM_STAGES ==> stage_is_fresh(#[trigger] r.stages@[i]),
        r.stages@[IF_STAGE as int].size_out == IF_ID_SIZE,
        r.stages@[ID_STAGE as int].size_out == ID_EX_SIZE,
        r.stages@[EX_STAGE as int].size_out == EX_MEM_SIZE,
        r.stages@[MEM_STAGE as int].size_out == MEM_WB_SIZE,
        r.stages@[WB_STAGE as int].size_out == 0,
        r.icache.is_some(),
        r.icache.unwrap().spec_start_end_addresses() == (ICACHE_BASE, DCACHE_BASE),
        r.icache.unwrap().spec_memory_type() == MemoryDeviceType::L1ICACHE,
        r.icache.unwrap().line_size == LINE_SIZE,
        r.icache.unwrap().contents() == zero_bytes((LINE_SIZE * NUM_LINES) as nat),
        r.dcache.is_some(),
        r.dcache.unwrap().spec_start_end_addresses() == (
            DCACHE_BASE,
            (DCACHE_BASE + LINE_SIZE * NUM_LINES) as u64,
        ),
        r.dcache.unwrap().spec_memory_type() == MemoryDeviceType::L1DCACHE,
        r.dcache.unwrap().line_size == LINE_SIZE,
        r.dcache.unwrap().contents() == zero_bytes((LINE_SIZE * NUM_LINES) as nat),
        r.mmu.devices@.len() == 1,
        r.mmu.devices@[0] is Serial,
        r.mmu.devices@[0].spec_start_end_addresses() == (UART_BASE, UART_END),
        r.mmu.devices@[0].pending_output() == Seq::<u8>::empty(),
{
    let mut rv32i_core: RiscCore<MCUCache, Device> = RiscCore::new(
        NUM_STAGES,
        clock_period,
        false,
    );
    let icache = MCUCache::new_with_lines(
        MemoryDeviceType::L1ICACHE,
        LINE_SIZE,
        NUM_LINES,
        ICACHE_BASE,
    );
    let dcache = MCUCache::new_with_lines(
        MemoryDeviceType::L1DCACHE,
        LINE_SIZE,
        NUM_LINES,
        ICACHE_BASE + icache.size() as Address,
    );
    rv32i_core.add_l1_cache(icache, dcache);
    let if_stage = PipelineStage::new(
        "IF".to_string(),
        IF_STAGE,
        0,
        IF_ID_SIZE,
        StageLogic::Fetch,
        None,
        Some(ID_STAGE),
    );
    let id_stage = PipelineStage::new(
        "ID".to_string(),
        ID_STAGE,
        IF_ID_SIZE,
        ID_EX_SIZE,
        StageLogic::Decode,
        Some(FlipFlop::new()),
        Some(EX_STAGE),
    );
    let ex_stage = PipelineStage::new(
        "EX".to_string(),
        EX_STAGE,
        ID_EX_SIZE,
        EX_MEM_SIZE,
        StageLogic::Execute,
        Some(FlipFlop::new()),
        Some(MEM_STAGE),
    );
    let mem_stage = PipelineStage::new(
        "MEM".to_string(),
        MEM_STAGE,
        EX_MEM_SIZE,
        MEM_WB_SIZE,
        StageLogic::Memory,
        Some(FlipFlop::new()),
        Some(WB_STAGE),
    );
    let wb_stage = PipelineStage::new(
        "WB".to_string(),
        WB_STAGE,
        MEM_WB_SIZE,
        0,
        StageLogic::Writeback,
        Some(FlipFlop::new()),
        None,
    );
    let _ = rv32i_core.add_stage(if_stage);
    let _ = rv32i_core.add_stage(id_stage);
    let _ = rv32i_core.add_stage(ex_stage);
    let _ = rv32i_core.add_stage(mem_stage);
    let _ = rv32i_core.add_stage(wb_stage);
    let uart_device = Device::Serial(UART::new(MemoryDeviceType::UART0, UART_BASE, UART_END));
    let _ = rv32i_core.mmu.add_memory_device(uart_device);
    proof {
        assert forall|i: int| 0 <= i < NUM_STAGES implies stage_in_place(
            #[trigger] rv32i_core.stages@[i],
            i,
        ) by {}
    }
    rv32i_core
}

/// Loads the loadable sections of an ELF image into the caches of a core:
/// code into the instruction cache, everything else into the data cache.
pub fn load_elf<C: Cache, D: MemoryDevice>(core: &mut RiscCore<C, D>, image: &[u8]) -> (r: Result<
    (),
    LoadError,
>)
    requires
        old(core).well_formed(),
    ensures
        final(core).well_formed(),
        match loadable_sections(image@) {
            Err(why) => r == Err::<(), LoadError>(why) && *final(core) == *old(core),
            Ok(sections) => RiscCore::loaded(
                *old(core),
                sections,
                MemoryDeviceType::L1ICACHE,
                *final(core),
                r,
            ),
        },
{
    core.load_binary(image, MemoryDeviceType::L1ICACHE)
}

} // verus!
