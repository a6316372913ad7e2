//! Fetch: the address of the next instruction and the record handed to
//! decode.

use crate::cache::Cache;
use crate::mcu_core::{IF_STAGE, MEM_STAGE, WB_STAGE};
use crate::memory::{is_success, spec_is_success};
use crate::memory_management_unit::{
    MemoryDevice, MemoryRequest, MemoryRequestType, MemoryRequestView, MemoryResponse,
    MemoryResponseView,
};
use crate::payload::{BranchSignal, IfId};
use crate::pipeline_stage::{outcome_view, PipelineData, StageError};
use crate::risc_soc::{geometry_kept, routed_effect, routed_outcome, RiscCore};
use crate::risc_word::{le_u32, u32_from_le, RiscWord, WordSize};
use vstd::prelude::*;

verus! {

/// The address that fetch reads from: the target of a taken branch resolved in
/// the memory stage in this cycle, else the program counter.
pub open spec fn fetch_address(pc: RiscWord, signal: BranchSignal) -> RiscWord {
    if signal.taken() {
        signal.pc
    } else {
        pc
    }
}

/// The request that fetch makes: a read of one word.
pub open spec fn fetch_request(address: RiscWord) -> MemoryRequestView {
    MemoryRequestView::read(address as u64, WordSize::WORD)
}

/// What fetch hands to decode once the instruction memory has answered. A
/// status other than `CacheHit` and `Valid` is a fault, and so is an answer
/// of a number of bytes other than four.
pub open spec fn fetch_outcome(address: RiscWord, response: MemoryResponseView) -> Result<
    IfId,
    StageError,
> {
    if !spec_is_success(response.status) {
        Err(StageError::MemoryFault(response.status))
    } else if response.data.len() != 4 {
        Err(StageError::WrongDataLength)
    } else {
        Ok(IfId { instruction: le_u32(response.data, 0), pc: address })
    }
}

/// The address that fetch reads from.
pub fn select_address(pc: RiscWord, signal: &BranchSignal) -> (r: RiscWord)
    ensures
        r == fetch_address(pc, *signal),
{
    if signal.taken() {
        signal.pc
    } else {
        pc
    }
}

/// The request that fetch makes for an address.
pub fn instruction_request(address: RiscWord) -> (r: MemoryRequest)
    ensures
        r@ == fetch_request(address),
        r@.well_formed(),
{
    MemoryRequest {
        request_type: MemoryRequestType::READ,
        data_address: address as u64,
        data_size: WordSize::WORD,
        data: None,
    }
}

/// What fetch hands to decode once the instruction memory has answered.
pub fn complete_fetch(address: RiscWord, response: &MemoryResponse) -> (r: Result<
    IfId,
    StageError,
>)
    ensures
        r == fetch_outcome(address, response@),
{
    if !is_success(response.status) {
        return Err(StageError::MemoryFault(response.status));
    }
    if response.data.len() != 4 {
        return Err(StageError::WrongDataLength);
    }
    let word: u32 = u32_from_le(
        response.data[0],
        response.data[1],
        response.data[2],
        response.data[3],
    );
    assert(word == le_u32(response.data@, 0));
    Ok(IfId { instruction: word, pc: address })
}

/// What the fetch stage puts out when its request has the outcome `answer`.
pub open spec fn fetched(
    address: RiscWord,
    answer: Result<MemoryResponseView, StageError>,
) -> Result<Seq<u8>, StageError> {
    match answer {
        Err(fault) => Err(fault),
        Ok(response) => match fetch_outcome(address, response) {
            Ok(f) => Ok(f.to_bytes()),
            Err(fault) => Err(fault),
        },
    }
}

/// Whether `after` is the core `before` once its fetch stage has worked with
/// the outcome `out`. The program counter is the address fetched from: the
/// target of a taken branch on the wire from the memory stage, else the
/// program counter as it was. The instruction cache and, unless that hit,
/// the memory management unit have served the read. Nothing else of the core
/// has changed.
#[verifier::opaque]
pub open spec fn fetch_step<C: Cache, D: MemoryDevice>(
    before: RiscCore<C, D>,
    after: RiscCore<C, D>,
    out: Result<Seq<u8>, StageError>,
) -> bool {
    let signal = BranchSignal::from_bytes(before.cdb.sampled(MEM_STAGE as int, IF_STAGE as int));
    let address = fetch_address(before.program_counter, signal);
    let request = fetch_request(address);
    &&& after == (RiscCore {
        program_counter: address,
        icache: after.icache,
        mmu: after.mmu,
        ..before
    })
    &&& after.well_formed()
    &&& routed_effect(before.icache, after.icache, before.mmu, after.mmu, request)
    &&& out == fetched(address, routed_outcome(before.icache, before.mmu, request))
}

/// What a step of the fetch stage keeps, and what it makes of the program
/// counter.
pub proof fn lemma_fetch_step<C: Cache, D: MemoryDevice>(
    before: RiscCore<C, D>,
    after: RiscCore<C, D>,
    out: Result<Seq<u8>, StageError>,
)
    requires
        fetch_step(before, after, out),
    ensures
        after == (RiscCore {
            program_counter: after.program_counter,
            icache: after.icache,
            mmu: after.mmu,
            ..before
        }),
        after.well_formed(),
        after.program_counter == fetch_address(
            before.program_counter,
            BranchSignal::from_bytes(before.cdb.sampled(MEM_STAGE as int, IF_STAGE as int)),
        ),
        geometry_kept(before.icache, after.icache),
        after.mmu.same_map(&before.mmu),
{
    reveal(fetch_step);
}

/// What a step of the fetch stage makes of the instruction cache and of the
/// unit behind it: they have served the read of the word at the address
/// fetched from.
pub proof fn lemma_fetch_step_routes<C: Cache, D: MemoryDevice>(
    before: RiscCore<C, D>,
    after: RiscCore<C, D>,
    out: Result<Seq<u8>, StageError>,
)
    requires
        fetch_step(before, after, out),
    ensures
        routed_effect(
            before.icache,
            after.icache,
            before.mmu,
            after.mmu,
            fetch_request(after.program_counter),
        ),
{
    reveal(fetch_step);
}

/// The fetch stage: follows a taken branch resolved in the memory stage,
/// reads the instruction at the program counter, and hands it on with its
/// address. The register of the stage is not looked at: fetch has no input.
pub fn rv32_mcu_fetch_stage<C: Cache, D: MemoryDevice>(
    _pipeline_reg: &PipelineData,
    rv32_core: &mut RiscCore<C, D>,
) -> (r: Result<PipelineData, StageError>)
    requires
        old(rv32_core).well_formed(),
        old(rv32_core).num_stages > WB_STAGE,
        old(rv32_core).cdb.readable(MEM_STAGE as int, IF_STAGE as int),
    ensures
        fetch_step(*old(rv32_core), *final(rv32_core), outcome_view(r)),
        final(rv32_core).well_formed(),
{
    proof {
        reveal(fetch_step);
    }
    let signal = BranchSignal::parse(&rv32_core.cdb.pull(MEM_STAGE, IF_STAGE));
    let address = select_address(rv32_core.get_pc(), &signal);
    rv32_core.set_pc(address);
    let response = rv32_core.icache_request(instruction_request(address))?;
    let f = complete_fetch(address, &response)?;
    Ok(f.encode())
}

} // verus!
