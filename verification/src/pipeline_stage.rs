//! Pipeline registers: the byte payload a stage hands to the next one, and the
//! record of one stage.

use crate::memory_management_unit::MemoryResponseType;
use crate::risc_word::{le_u16, le_u32, le_u64, u16_from_le, u32_from_le, zero_bytes, zeros};
use vstd::prelude::*;

verus! {

/// An ordered byte sequence with typed little-endian accessors. It is the
/// payload of every pipeline register and of every wire of the data bus.
#[derive(Debug)]
pub struct PipelineData(pub Vec<u8>);

impl View for PipelineData {
    type V = Seq<u8>;

    open spec fn view(&self) -> Seq<u8> {
        self.0@
    }
}

impl Clone for PipelineData {
    fn clone(&self) -> (r: Self)
        ensures
            r@ == self@,
    {
        let bytes = self.0.clone();
        assert(bytes@ =~= self.0@);
        PipelineData(bytes)
    }
}

impl Default for PipelineData {
    fn default() -> (r: Self)
        ensures
            r@ == Seq::<u8>::empty(),
    {
        PipelineData(Vec::new())
    }
}

impl PipelineData {
    /// A payload of `n` zero bytes: a bubble of that width.
    pub fn zeroed(n: usize) -> (r: Self)
        ensures
            r@ == zero_bytes(n as nat),
    {
        PipelineData(zeros(n))
    }

    /// Whether the payload holds no byte.
    pub fn is_empty(&self) -> (r: bool)
        ensures
            r == (self@.len() == 0),
    {
        self.0.len() == 0
    }

    /// The byte at `address`.
    pub fn get_u8(&self, address: usize) -> (r: u8)
        requires
            address < self@.len(),
        ensures
            r == self@[address as int],
    {
        self.0[address]
    }

    /// The 16-bit little-endian value at `address`.
    pub fn get_u16(&self, address: usize) -> (r: u16)
        requires
            address + 2 <= self@.len(),
        ensures
            r == le_u16(self@, address as int),
    {
        let size: usize = self.0.len();
        assert(address + 2 <= size);
        u16_from_le(self.0[address], self.0[address + 1])
    }

    /// The 32-bit little-endian value at `address`.
    pub fn get_u32(&self, address: usize) -> (r: u32)
        requires
            address + 4 <= self@.len(),
        ensures
            r == le_u32(self@, address as int),
    {
        let size: usize = self.0.len();
        assert(address + 4 <= size);
        u32_from_le(self.0[address], self.0[address + 1], self.0[address + 2], self.0[address + 3])
    }

    /// The 64-bit little-endian value at `address`.
    pub fn get_u64(&self, address: usize) -> (r: u64)
        requires
            address + 8 <= self@.len(),
        ensures
            r == le_u64(self@, address as int),
    {
        let size: usize = self.0.len();
        assert(address + 8 <= size);
        let low: u32 = self.get_u32(address);
        let high: u32 = self.get_u32(address + 4);
        low as u64 + 0x1_0000_0000 * (high as u64)
    }

    /// Appends `data` to the payload.
    pub fn push_bytes(&mut self, data: Vec<u8>)
        ensures
            final(self)@ == old(self)@ + data@,
    {
        let mut data = data;
        self.0.append(&mut data);
    }

    /// Number of bytes in the payload.
    pub fn size(&self) -> (r: usize)
        ensures
            r == self@.len(),
    {
        self.0.len()
    }
}

/// A 32-bit instruction encoding. Zero stands for a bubble.
#[derive(Debug, Default, Clone, Copy, PartialEq, Eq, Structural)]
pub struct Instruction(pub u32);

/// Count of clock cycles a stage has gone through.
pub type ClockCycle = u64;

/// What one stage hands to the next at the end of a cycle.
#[derive(Debug)]
pub struct PipelinePayload {
    pub instruction: Instruction,
    pub data: PipelineData,
}

impl Clone for PipelinePayload {
    fn clone(&self) -> (r: Self)
        ensures
            r.instruction == self.instruction,
            r.data@ == self.data@,
    {
        PipelinePayload { instruction: self.instruction, data: self.data.clone() }
    }
}

impl Default for PipelinePayload {
    fn default() -> (r: Self)
        ensures
            r.instruction == Instruction(0),
            r.data@ == Seq::<u8>::empty(),
    {
        PipelinePayload { instruction: Instruction(0), data: PipelineData(Vec::new()) }
    }
}

/// The one-slot register between two stages. The sending stage fills it at the
/// end of a cycle; the receiving stage empties it at the start of the next.
pub struct FlipFlop {
    pub slot: Option<PipelinePayload>,
}

/// What a stage finds when it samples its input: the payload in the slot, or
/// a bubble where the slot is empty.
pub open spec fn sampled_input(slot: Option<PipelinePayload>) -> (Instruction, Seq<u8>) {
    match slot {
        Some(p) => (p.instruction, p.data@),
        None => (Instruction(0), Seq::empty()),
    }
}

impl FlipFlop {
    /// What the register holds, if anything.
    pub open spec fn held(&self) -> Option<(Instruction, Seq<u8>)> {
        match self.slot {
            Some(p) => Some((p.instruction, p.data@)),
            None => None,
        }
    }

    /// An empty register.
    pub fn new() -> (r: Self)
        ensures
            r.held().is_none(),
    {
        FlipFlop { slot: None }
    }

    /// Takes the payload out of the register, if there is one. The register
    /// is empty afterwards.
    pub fn try_recv(&mut self) -> (r: Option<PipelinePayload>)
        ensures
            final(self).held().is_none(),
            sampled_input(r) == sampled_input(old(self).slot),
            r.is_some() == old(self).slot.is_some(),
    {
        self.slot.take()
    }

    /// Puts a payload into the register, which must be empty: it holds one
    /// payload, and the stage that reads it takes that out at the start of
    /// every cycle.
    pub fn send(&mut self, payload: PipelinePayload)
        requires
            old(self).held().is_none(),
        ensures
            final(self).held() == Some((payload.instruction, payload.data@)),
    {
        self.slot = Some(payload);
    }
}

/// The combinational logic that a stage runs.
#[derive(Debug, Clone, Copy, PartialEq, Eq, Structural)]
pub enum StageLogic {
    Fetch,
    Decode,
    Execute,
    Memory,
    Writeback,
}

/// Position of a stage in the pipeline.
pub type StageIndex = usize;

/// One stage of the pipeline: what it consumed and produced in the last
/// cycle, the register it reads from, the stage it feeds, and its logic.
pub struct PipelineStage {
    pub name: String,
    pub index: StageIndex,
    pub size_in: usize,
    pub size_out: usize,
    /// The instruction that the stage holds.
    pub instruction: Instruction,
    pub clock_cycle: ClockCycle,
    pub data_in: PipelineData,
    pub data_out: PipelineData,
    /// The register that the previous stage fills. The first stage has none.
    pub input_channel: Option<FlipFlop>,
    /// The stage whose register this stage fills. The last stage has none.
    pub output_channel: Option<StageIndex>,
    pub process_fn: StageLogic,
    pub debug: bool,
}

/// What every kind of pipeline stage offers.
pub trait PipelineStageInterface: Sized {
    /// What chooses the logic of the stage.
    type F;

    /// What `extract_data` gives for the stage: what it consumed and what it
    /// produced.
    spec fn data(&self) -> (Seq<u8>, Seq<u8>);

    /// What `get_current_step` gives for the stage.
    spec fn current_step(&self) -> (ClockCycle, Instruction);

    /// Whether the debug flag is set.
    spec fn debugging(&self) -> bool;

    /// A stage at cycle zero that holds a bubble, with all-zero registers of
    /// the given sizes.
    fn new(
        name: String,
        index: usize,
        size_in: usize,
        size_out: usize,
        process_fn: Self::F,
        input_channel: Option<FlipFlop>,
        output_channel: Option<StageIndex>,
    ) -> (r: Self)
        ensures
            r.data() == (zero_bytes(size_in as nat), zero_bytes(size_out as nat)),
            r.current_step() == (0u64, Instruction(0)),
            !r.debugging(),
    ;

    /// What the stage consumed and what it produced in the last cycle.
    fn extract_data(&self) -> (r: (&PipelineData, &PipelineData))
        ensures
            (r.0@, r.1@) == self.data(),
    ;

    /// The cycle count of the stage and the instruction it holds.
    fn get_current_step(&self) -> (r: (ClockCycle, Instruction))
        ensures
            r == self.current_step(),
    ;

    /// Sets the debug flag. Nothing else changes.
    fn enable_debug(&mut self, debug: bool)
        ensures
            final(self).debugging() == debug,
            final(self).data() == old(self).data(),
            final(self).current_step() == old(self).current_step(),
    ;
}

impl PipelineStage {
    /// What the interface of a stage gives is what the stage holds.
    pub proof fn lemma_as_stage(&self)
        ensures
            self.data() == (self.data_in@, self.data_out@),
            self.current_step() == (self.clock_cycle, self.instruction),
            self.debugging() == self.debug,
    {
    }
}

impl PipelineStageInterface for PipelineStage {
    type F = StageLogic;

    open spec fn data(&self) -> (Seq<u8>, Seq<u8>) {
        (self.data_in@, self.data_out@)
    }

    open spec fn current_step(&self) -> (ClockCycle, Instruction) {
        (self.clock_cycle, self.instruction)
    }

    open spec fn debugging(&self) -> bool {
        self.debug
    }

    fn new(
        name: String,
        index: usize,
        size_in: usize,
        size_out: usize,
        process_fn: StageLogic,
        input_channel: Option<FlipFlop>,
        output_channel: Option<StageIndex>,
    ) -> (r: Self)
        ensures
            r.name == name,
            r.index == index,
            r.size_in == size_in,
            r.size_out == size_out,
            r.process_fn == process_fn,
            r.input_channel == input_channel,
            r.output_channel == output_channel,
    {
        let stage = PipelineStage {
            name: name,
            index: index,
            size_in: size_in,
            size_out: size_out,
            process_fn: process_fn,
            debug: false,
            instruction: Instruction(0),
            clock_cycle: 0,
            input_channel: input_channel,
            output_channel: output_channel,
            data_in: PipelineData::zeroed(size_in),
            data_out: PipelineData::zeroed(size_out),
        };
        proof {
            stage.lemma_as_stage();
        }
        stage
    }

    fn extract_data(&self) -> (r: (&PipelineData, &PipelineData)) {
        proof {
            self.lemma_as_stage();
        }
        (&self.data_in, &self.data_out)
    }

    fn get_current_step(&self) -> (r: (ClockCycle, Instruction)) {
        proof {
            self.lemma_as_stage();
        }
        (self.clock_cycle, self.instruction)
    }

    fn enable_debug(&mut self, debug: bool)
        ensures
            *final(self) == (PipelineStage { debug: debug, ..*old(self) }),
    {
        proof {
            self.lemma_as_stage();
        }
        self.debug = debug;
    }
}

/// Why a stage cannot go on. The simulation ends with the first of these.
#[derive(Debug, Clone, Copy, PartialEq, Eq, Structural)]
pub enum StageError {
    /// Decode met an instruction whose opcode this core does not execute.
    UnsupportedOpcode(u8),
    /// A memory request was answered with a status other than `CacheHit` or
    /// `Valid`.
    MemoryFault(MemoryResponseType),
    /// A read was answered with fewer or more bytes than its width.
    WrongDataLength,
    /// The core has no first-level cache to send the request to.
    NoCache,
}

/// What a stage function returned, with the payload as a sequence of bytes.
pub open spec fn outcome_view(r: Result<PipelineData, StageError>) -> Result<Seq<u8>, StageError> {
    match r {
        Ok(p) => Ok(p@),
        Err(e) => Err(e),
    }
}

} // verus!
