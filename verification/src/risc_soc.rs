//! The core: register file, program counter, caches, memory management unit,
//! common data bus and the stages, with the requests that stages make of it.

use crate::cache::Cache;
use crate::cdb::CommonDataBus;
use crate::memory_management_unit::{
    device_step, gathered_output, lemma_gathered_nothing, MemoryDevice, MemoryManagementUnit,
    MemoryRequest, MemoryRequestView, MemoryResponse, MemoryResponseType, MemoryResponseView,
};
use crate::payload::Forward;
use crate::pipeline_stage::{PipelineStage, PipelineStageInterface, StageError};
use crate::risc_word::RiscWord;
use vstd::prelude::*;

verus! {

/// Address of the first instruction.
pub const RESET_VECTOR: RiscWord = 0x8000_0000;

/// Number of architectural registers.
pub const NUM_REGISTERS: usize = 32;

/// The architectural registers. Register zero always reads as zero.
#[derive(Debug)]
pub struct Registers(pub [RiscWord; 32]);

impl View for Registers {
    type V = Seq<RiscWord>;

    open spec fn view(&self) -> Seq<RiscWord> {
        self.0@
    }
}

/// The registers after a write of `value` to register `rd`: a write to
/// register zero changes nothing.
pub open spec fn written(registers: Seq<RiscWord>, rd: int, value: RiscWord) -> Seq<RiscWord> {
    if rd == 0 {
        registers
    } else {
        registers.update(rd, value)
    }
}

/// The registers after the commit that a forwarded result stands for.
pub open spec fn committed(registers: Seq<RiscWord>, commit: Forward) -> Seq<RiscWord> {
    if commit.reg_write == 1 {
        written(registers, commit.target() as int, commit.value)
    } else {
        registers
    }
}

/// No write and no commit changes register zero.
pub proof fn lemma_register_zero_kept(
    registers: Seq<RiscWord>,
    rd: int,
    value: RiscWord,
    commit: Forward,
)
    requires
        registers.len() == NUM_REGISTERS,
        0 <= rd < NUM_REGISTERS,
    ensures
        written(registers, rd, value)[0] == registers[0],
        committed(registers, commit)[0] == registers[0],
        written(registers, rd, value).len() == NUM_REGISTERS,
        committed(registers, commit).len() == NUM_REGISTERS,
{
}

impl Registers {
    /// Register zero holds zero.
    pub open spec fn well_formed(&self) -> bool {
        self@[0] == 0
    }

    /// The values of two registers.
    pub fn read_regs(&self, rs1_address: usize, rs2_address: usize) -> (r: (RiscWord, RiscWord))
        requires
            rs1_address < NUM_REGISTERS,
            rs2_address < NUM_REGISTERS,
        ensures
            r.0 == self@[rs1_address as int],
            r.1 == self@[rs2_address as int],
    {
        (self.0[rs1_address], self.0[rs2_address])
    }

    /// Writes a register. A write to register zero is dropped.
    pub fn write_reg(&mut self, rd_address: usize, rd: RiscWord)
        requires
            rd_address < NUM_REGISTERS,
        ensures
            final(self)@ == written(old(self)@, rd_address as int, rd),
            old(self).well_formed() ==> final(self).well_formed(),
    {
        if rd_address > 0 {
            self.0[rd_address] = rd;
        }
    }
}

impl Default for Registers {
    fn default() -> (r: Self)
        ensures
            r.well_formed(),
            forall|i: int| 0 <= i < NUM_REGISTERS ==> r@[i] == 0,
    {
        Registers([0u32; 32])
    }
}

/// The two control lines of a stage.
#[derive(Debug, Clone, Copy, PartialEq, Eq, Structural)]
pub struct PipelineControlSignals {
    /// While set, the stage puts out zeros at the end of each cycle.
    pub reset: bool,
    /// While clear, the stage holds what it put out last.
    pub enable: bool,
}

/// Why the core refuses a request of its owner.
#[derive(Debug, Clone, Copy, PartialEq, Eq, Structural)]
pub enum CoreError {
    /// The core has as many stages as it was made for.
    TooManyStages,
    /// The stages are not the five of the RV32I pipeline, in order and
    /// chained by their registers.
    NotRunnable,
}

/// A pipelined core. `C` is the kind of its first-level caches, `D` the kind
/// of device behind its memory management unit.
pub struct RiscCore<C: Cache, D: MemoryDevice> {
    pub debug: bool,
    /// Number of stages that the core was made for.
    pub num_stages: usize,
    pub stages: Vec<PipelineStage>,
    pub icache: Option<C>,
    pub dcache: Option<C>,
    pub registers: Registers,
    pub program_counter: RiscWord,
    pub mmu: MemoryManagementUnit<D>,
    /// Length of a clock cycle in nanoseconds, if the clock is paced.
    pub clock_period: Option<u128>,
    pub cdb: CommonDataBus,
    /// The control lines of each stage, by its index.
    pub pipeline_control_signals: Vec<PipelineControlSignals>,
}

/// What a cache and the unit behind it answer to a request, or the fault
/// that ends the request: without a cache there is nobody to ask. The cache
/// answers if it hits; else the unit does.
pub open spec fn routed_outcome<C: Cache, D: MemoryDevice>(
    cache: Option<C>,
    mmu: MemoryManagementUnit<D>,
    request: MemoryRequestView,
) -> Result<MemoryResponseView, StageError> {
    match cache {
        None => Err(StageError::NoCache),
        Some(c) => if c.response(request).status == MemoryResponseType::CacheHit {
            Ok(c.response(request))
        } else {
            Ok(mmu.routed_response(request))
        },
    }
}

/// Whether a cache and the unit behind it are, afterwards, what serving a
/// request makes of them: the cache has served it; the unit has served it if
/// the cache did not hit, and is as it was otherwise.
pub open spec fn routed_effect<C: Cache, D: MemoryDevice>(
    cache: Option<C>,
    cache_after: Option<C>,
    mmu: MemoryManagementUnit<D>,
    mmu_after: MemoryManagementUnit<D>,
    request: MemoryRequestView,
) -> bool {
    match cache {
        None => cache_after.is_none() && mmu_after == mmu,
        Some(c) => {
            &&& cache_after.is_some()
            &&& device_step(c, cache_after.unwrap(), request)
            &&& if c.response(request).status == MemoryResponseType::CacheHit {
                mmu_after == mmu
            } else {
                mmu.served(&mmu_after, request)
            }
        },
    }
}

/// Whether a cache is, afterwards, of the geometry it had: there if and only
/// if it was there, of the same kind, range, size and line size.
pub open spec fn geometry_kept<C: Cache>(cache: Option<C>, cache_after: Option<C>) -> bool {
    match cache {
        None => cache_after.is_none(),
        Some(c) => {
            &&& cache_after.is_some()
            &&& cache_after.unwrap().spec_memory_type() == c.spec_memory_type()
            &&& cache_after.unwrap().spec_start_end_addresses() == c.spec_start_end_addresses()
            &&& cache_after.unwrap().spec_size() == c.spec_size()
            &&& cache_after.unwrap().spec_line_size() == c.spec_line_size()
        },
    }
}

/// Serving a request changes the geometry of nothing: the cache keeps its
/// kind, range, size and line size, and the unit behind it keeps its devices
/// in their places, each with its own.
pub proof fn lemma_request_keeps_geometry<C: Cache, D: MemoryDevice>(
    cache: Option<C>,
    cache_after: Option<C>,
    mmu: MemoryManagementUnit<D>,
    mmu_after: MemoryManagementUnit<D>,
    request: MemoryRequestView,
)
    requires
        routed_effect(cache, cache_after, mmu, mmu_after, request),
    ensures
        geometry_kept(cache, cache_after),
        mmu_after.same_map(&mmu),
{
}

impl<C: Cache, D: MemoryDevice> RiscCore<C, D> {
    /// The parts of the core are well formed, the bus and the control lines
    /// are as wide as the core was made for, and the core has no more stages
    /// than that.
    pub open spec fn well_formed(&self) -> bool {
        &&& self.stages@.len() <= self.num_stages
        &&& self.pipeline_control_signals@.len() == self.num_stages
        &&& self.cdb.well_formed()
        &&& self.cdb.num_stages() == self.num_stages
        &&& self.mmu.well_formed()
        &&& self.registers.well_formed()
        &&& (self.icache.is_some() ==> self.icache.unwrap().well_formed())
        &&& (self.dcache.is_some() ==> self.dcache.unwrap().well_formed())
    }

    /// What a cache has waiting for the host console, if there is a cache.
    pub open spec fn cache_output(cache: Option<C>) -> Seq<u8> {
        match cache {
            Some(c) => c.pending_output(),
            None => Seq::empty(),
        }
    }

    /// The bytes that wait for the host console: those of the instruction
    /// cache, then those of the data cache, then those of the devices behind
    /// the memory management unit, in the order of their registration.
    pub open spec fn console_output(&self) -> Seq<u8> {
        Self::cache_output(self.icache) + Self::cache_output(self.dcache) + gathered_output(
            self.mmu.devices@,
            self.mmu.devices@.len() as int,
        )
    }

    /// A core for `num_stages` stages: no stage and no cache yet, an empty
    /// memory management unit, all registers zero, the program counter at
    /// the reset vector, and for every stage to come a released reset line
    /// and a set enable line.
    pub fn new(num_stages: usize, clock_period: Option<u128>, debug: bool) -> (r: Self)
        ensures
            r.well_formed(),
            r.num_stages == num_stages,
            r.stages@.len() == 0,
            r.icache.is_none(),
            r.dcache.is_none(),
            r.mmu.devices@.len() == 0,
            r.program_counter == RESET_VECTOR,
            r.clock_period == clock_period,
            r.cdb.critical_path == clock_period,
            r.debug == debug,
            forall|i: int| 0 <= i < NUM_REGISTERS ==> r.registers@[i] == 0,
            forall|i: int|
                0 <= i < num_stages ==> r.pipeline_control_signals@[i] == (PipelineControlSignals {
                    reset: false,
                    enable: true,
                }),
    {
        let mut signals: Vec<PipelineControlSignals> = Vec::with_capacity(num_stages);
        let mut i: usize = 0;
        while i < num_stages
            invariant
                i <= num_stages,
                signals@.len() == i,
                forall|j: int|
                    0 <= j < i ==> signals@[j] == (PipelineControlSignals {
                        reset: false,
                        enable: true,
                    }),
            decreases num_stages - i,
        {
            signals.push(PipelineControlSignals { reset: false, enable: true });
            i += 1;
        }
        RiscCore {
            stages: Vec::with_capacity(num_stages),
            num_stages: num_stages,
            icache: None,
            dcache: None,
            registers: Registers::default(),
            program_counter: RESET_VECTOR,
            mmu: MemoryManagementUnit::new(),
            cdb: CommonDataBus::new(num_stages, clock_period, debug),
            clock_period: clock_period,
            debug: debug,
            pipeline_control_signals: signals,
        }
    }

    /// Gives the core its instruction and data caches. They are not entered
    /// into the memory management unit.
    pub fn add_l1_cache(&mut self, icache: C, dcache: C)
        requires
            old(self).well_formed(),
            icache.well_formed(),
            dcache.well_formed(),
        ensures
            final(self).well_formed(),
            *final(self) == (RiscCore { icache: Some(icache), dcache: Some(dcache), ..*old(self) }),
    {
        self.icache = Some(icache);
        self.dcache = Some(dcache);
    }

    /// Replaces the memory management unit.
    pub fn add_mmu(&mut self, mmu: MemoryManagementUnit<D>)
        requires
            old(self).well_formed(),
            mmu.well_formed(),
        ensures
            final(self).well_formed(),
            *final(self) == (RiscCore { mmu: mmu, ..*old(self) }),
    {
        self.mmu = mmu;
    }

    /// Sets the debug flag of the core, of every wire of its bus and of every
    /// stage. Nothing else changes.
    pub fn enable_debug(&mut self, debug: bool)
        requires
            old(self).well_formed(),
        ensures
            final(self).well_formed(),
            *final(self) == (RiscCore {
                debug: debug,
                cdb: final(self).cdb,
                stages: final(self).stages,
                ..*old(self)
            }),
            final(self).cdb@ == old(self).cdb@,
            final(self).cdb.critical_path == old(self).cdb.critical_path,
            forall|from: int, to: int|
                0 <= from < final(self).num_stages && 0 <= to < final(self).num_stages ==> (
                #[trigger] final(self).cdb.lanes@[from]@[to]).debug == debug,
            final(self).stages@.len() == old(self).stages@.len(),
            forall|i: int|
                0 <= i < old(self).stages@.len() ==> (#[trigger] final(self).stages@[i]) == (
                PipelineStage { debug: debug, ..old(self).stages@[i] }),
    {
        self.debug = debug;
        self.cdb.enable_debug(debug);
        let ghost mid = *self;
        let mut i: usize = 0;
        while i < self.stages.len()
            invariant
                i <= self.stages@.len(),
                self.stages@.len() == old(self).stages@.len(),
                *self == (RiscCore { stages: self.stages, ..mid }),
                mid == (RiscCore { debug: debug, cdb: mid.cdb, ..*old(self) }),
                mid.well_formed(),
                forall|j: int|
                    0 <= j < i ==> (#[trigger] self.stages@[j]) == (PipelineStage {
                        debug: debug,
                        ..old(self).stages@[j]
                    }),
                forall|j: int|
                    i <= j < self.stages@.len() ==> (#[trigger] self.stages@[j])
                        == old(self).stages@[j],
            decreases self.stages@.len() - i,
        {
            self.stages[i].enable_debug(debug);
            i += 1;
        }
    }

    /// Hands over the bytes that wait for the host console: those of the
    /// instruction cache, then those of the data cache, then those of the
    /// devices behind the memory management unit.
    pub fn take_console_output(&mut self) -> (r: Vec<u8>)
        requires
            old(self).well_formed(),
        ensures
            final(self).well_formed(),
            *final(self) == (RiscCore {
                icache: final(self).icache,
                dcache: final(self).dcache,
                mmu: final(self).mmu,
                ..*old(self)
            }),
            r@ == old(self).console_output(),
            final(self).console_output() == Seq::<u8>::empty(),
            final(self).mmu.same_map(&old(self).mmu),
            final(self).icache.is_some() == old(self).icache.is_some(),
            final(self).dcache.is_some() == old(self).dcache.is_some(),
            final(self).icache.is_some() ==> final(self).icache.unwrap().contents()
                == old(self).icache.unwrap().contents(),
            final(self).dcache.is_some() ==> final(self).dcache.unwrap().contents()
                == old(self).dcache.unwrap().contents(),
            forall|i: int|
                0 <= i < old(self).mmu.devices@.len() ==> (
                #[trigger] final(self).mmu.devices@[i]).contents()
                    == old(self).mmu.devices@[i].contents(),
    {
        let mut out: Vec<u8> = Vec::new();
        match &mut self.icache {
            Some(cache) => {
                let mut part = cache.take_output();
                out.append(&mut part);
            },
            None => {},
        }
        match &mut self.dcache {
            Some(cache) => {
                let mut part = cache.take_output();
                out.append(&mut part);
            },
            None => {},
        }
        let mut part = self.mmu.take_output();
        out.append(&mut part);
        proof {
            lemma_gathered_nothing(self.mmu.devices@, self.mmu.devices@.len() as int);
            assert(self.console_output() =~= Seq::<u8>::empty());
        }
        out
    }

    /// Sets the length of a clock cycle, in nanoseconds.
    pub fn set_clock_period(&mut self, nanosecs: u128)
        ensures
            *final(self) == (RiscCore { clock_period: Some(nanosecs), ..*old(self) }),
    {
        self.clock_period = Some(nanosecs);
    }

    /// Sends a request to the instruction cache and, unless it hits, on to
    /// the memory management unit.
    pub fn icache_request(&mut self, request: MemoryRequest) -> (r: Result<
        MemoryResponse,
        StageError,
    >)
        requires
            old(self).well_formed(),
            request@.well_formed(),
        ensures
            final(self).well_formed(),
            *final(self) == (RiscCore {
                icache: final(self).icache,
                mmu: final(self).mmu,
                ..*old(self)
            }),
            routed_effect(
                old(self).icache,
                final(self).icache,
                old(self).mmu,
                final(self).mmu,
                request@,
            ),
            match r {
                Ok(response) => routed_outcome(old(self).icache, old(self).mmu, request@) == Ok::<
                    MemoryResponseView,
                    StageError,
                >(response@),
                Err(e) => routed_outcome(old(self).icache, old(self).mmu, request@) == Err::<
                    MemoryResponseView,
                    StageError,
                >(e),
            },
    {
        match &mut self.icache {
            None => Err(StageError::NoCache),
            Some(cache) => {
                let response = cache.send_data_request(request.clone());
                match response.status {
                    MemoryResponseType::CacheHit => Ok(response),
                    _ => Ok(self.mmu.process_memory_request(request)),
                }
            },
        }
    }

    /// Sends a request to the data cache and, unless it hits, on to the
    /// memory management unit.
    pub fn dcache_request(&mut self, request: MemoryRequest) -> (r: Result<
        MemoryResponse,
        StageError,
    >)
        requires
            old(self).well_formed(),
            request@.well_formed(),
        ensures
            final(self).well_formed(),
            *final(self) == (RiscCore {
                dcache: final(self).dcache,
                mmu: final(self).mmu,
                ..*old(self)
            }),
            routed_effect(
                old(self).dcache,
                final(self).dcache,
                old(self).mmu,
                final(self).mmu,
                request@,
            ),
            match r {
                Ok(response) => routed_outcome(old(self).dcache, old(self).mmu, request@) == Ok::<
                    MemoryResponseView,
                    StageError,
                >(response@),
                Err(e) => routed_outcome(old(self).dcache, old(self).mmu, request@) == Err::<
                    MemoryResponseView,
                    StageError,
                >(e),
            },
    {
        match &mut self.dcache {
            None => Err(StageError::NoCache),
            Some(cache) => {
                let response = cache.send_data_request(request.clone());
                match response.status {
                    MemoryResponseType::CacheHit => Ok(response),
                    _ => Ok(self.mmu.process_memory_request(request)),
                }
            },
        }
    }

    /// Appends a stage, unless the core already has as many stages as it was
    /// made for. The stage takes the debug flag of the core.
    pub fn add_stage(&mut self, stage: PipelineStage) -> (r: Result<(), CoreError>)
        requires
            old(self).well_formed(),
        ensures
            final(self).well_formed(),
            old(self).stages@.len() < old(self).num_stages ==> r.is_ok() && *final(self) == (
            RiscCore {
                stages: final(self).stages,
                ..*old(self)
            }) && final(self).stages@ == old(self).stages@.push(
                PipelineStage { debug: old(self).debug, ..stage },
            ),
            old(self).stages@.len() >= old(self).num_stages ==> r == Err::<(), CoreError>(
                CoreError::TooManyStages,
            ) && *final(self) == *old(self),
    {
        if self.stages.len() >= self.num_stages {
            return Err(CoreError::TooManyStages);
        }
        let mut stage = stage;
        stage.enable_debug(self.debug);
        self.stages.push(stage);
        Ok(())
    }

    /// Sets or releases the reset line of a stage.
    pub fn reset_stage(&mut self, stage_index: usize, reset_value: bool)
        requires
            old(self).well_formed(),
            stage_index < old(self).num_stages,
        ensures
            final(self).well_formed(),
            *final(self) == (RiscCore {
                pipeline_control_signals: final(self).pipeline_control_signals,
                ..*old(self)
            }),
            final(self).pipeline_control_signals@ == old(self).pipeline_control_signals@.update(
                stage_index as int,
                PipelineControlSignals {
                    reset: reset_value,
                    ..old(self).pipeline_control_signals@[stage_index as int]
                },
            ),
    {
        let enable: bool = self.pipeline_control_signals[stage_index].enable;
        self.pipeline_control_signals[stage_index] = PipelineControlSignals {
            reset: reset_value,
            enable: enable,
        };
    }

    /// Sets or clears the enable line of a stage.
    pub fn enable_stage(&mut self, stage_index: usize, enable_value: bool)
        requires
            old(self).well_formed(),
            stage_index < old(self).num_stages,
        ensures
            final(self).well_formed(),
            *final(self) == (RiscCore {
                pipeline_control_signals: final(self).pipeline_control_signals,
                ..*old(self)
            }),
            final(self).pipeline_control_signals@ == old(self).pipeline_control_signals@.update(
                stage_index as int,
                PipelineControlSignals {
                    enable: enable_value,
                    ..old(self).pipeline_control_signals@[stage_index as int]
                },
            ),
    {
        let reset: bool = self.pipeline_control_signals[stage_index].reset;
        self.pipeline_control_signals[stage_index] = PipelineControlSignals {
            reset: reset,
            enable: enable_value,
        };
    }

    /// Whether the reset line of a stage is set.
    pub fn is_stage_reset(&self, stage_index: usize) -> (r: bool)
        requires
            self.well_formed(),
            stage_index < self.num_stages,
        ensures
            r == self.pipeline_control_signals@[stage_index as int].reset,
    {
        self.pipeline_control_signals[stage_index].reset
    }

    /// Whether the enable line of a stage is set.
    pub fn is_stage_enabled(&self, stage_index: usize) -> (r: bool)
        requires
            self.well_formed(),
            stage_index < self.num_stages,
        ensures
            r == self.pipeline_control_signals@[stage_index as int].enable,
    {
        self.pipeline_control_signals[stage_index].enable
    }

    /// The program counter.
    pub fn get_pc(&self) -> (r: RiscWord)
        ensures
            r == self.program_counter,
    {
        self.program_counter
    }

    /// Sets the program counter.
    pub fn set_pc(&mut self, pc: RiscWord)
        ensures
            *final(self) == (RiscCore { program_counter: pc, ..*old(self) }),
    {
        self.program_counter = pc;
    }
}

} // verus!
