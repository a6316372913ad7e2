//! A cycle as a function: what the pipeline holds after a cycle, computed
//! from what it held before, the word that was fetched, and the answer to
//! the load or store in the memory stage.

use crate::cache::Cache;
use crate::clock::{commits, input_of};
use crate::decode::{decode_spec, rs1_of, rs2_of};
use crate::execute::{add32, execute_spec};
use crate::fetch::{fetch_address, fetch_request};
use crate::laws::{
    lemma_cycle_decode, lemma_cycle_execute, lemma_cycle_fetch, lemma_cycle_hands_on,
    lemma_cycle_memory, lemma_cycle_memory_access, lemma_cycle_program_counter,
    lemma_cycle_registers, next_fetch,
};
use crate::mcu_core::{EX_STAGE, ID_STAGE, IF_STAGE, MEM_STAGE, NUM_STAGES, WB_STAGE};
use crate::memory::{access_of, access_outcome, branch_signal, memory_forward, pass_through};
use crate::memory_management_unit::{
    device_step, MemoryDevice, MemoryResponseType, MemoryResponseView,
};
use crate::payload::{lemma_zero_payload_is_bubble, ExMem, IdEx, IfId, MemWb};
use crate::risc_soc::{committed, routed_outcome, RiscCore};
use crate::risc_word::{le_u32, RiscWord};
use crate::writeback::commit_of;
use vstd::prelude::*;

verus! {

/// What decides how a pipeline goes on: the program counter, the register
/// file, and the records that wait in the registers before decode, execute,
/// the memory stage and writeback.
pub struct Flow {
    pub pc: RiscWord,
    pub registers: Seq<RiscWord>,
    pub to_decode: IfId,
    pub to_execute: IdEx,
    pub to_memory: ExMem,
    pub to_writeback: MemWb,
}

/// What the pipeline of a core holds.
pub open spec fn flow_of<C: Cache, D: MemoryDevice>(core: RiscCore<C, D>) -> Flow {
    Flow {
        pc: core.program_counter,
        registers: core.registers@,
        to_decode: IfId::from_bytes(input_of(core, ID_STAGE as int)),
        to_execute: IdEx::from_bytes(input_of(core, EX_STAGE as int)),
        to_memory: ExMem::from_bytes(input_of(core, MEM_STAGE as int)),
        to_writeback: MemWb::from_bytes(input_of(core, WB_STAGE as int)),
    }
}

/// What a pipeline holds one cycle on, when every stage commits, the word
/// `word` is fetched, and the load or store in the memory stage, if there is
/// one, is answered `answer`. The register file takes the commit of the
/// instruction in writeback before decode reads it; a taken branch or jump
/// in the memory stage redirects the fetch and leaves bubbles behind it in
/// decode and execute.
pub open spec fn stepped(v: Flow, word: RiscWord, answer: MemoryResponseView) -> Flow {
    let signal = branch_signal(v.to_memory);
    let commit = commit_of(v.to_writeback);
    let registers = committed(v.registers, commit);
    let address = fetch_address(v.pc, signal);
    Flow {
        pc: add32(address, 4),
        registers: registers,
        to_decode: IfId { instruction: word, pc: address },
        to_execute: match decode_spec(
            v.to_decode,
            signal,
            registers[rs1_of(v.to_decode.instruction) as int],
            registers[rs2_of(v.to_decode.instruction) as int],
        ) {
            Some(issued) => issued,
            None => IdEx::bubble(),
        },
        to_memory: if signal.taken() {
            ExMem::bubble()
        } else {
            execute_spec(v.to_execute, memory_forward(v.to_memory), commit)
        },
        to_writeback: match access_of(v.to_memory) {
            None => pass_through(v.to_memory),
            Some(request) => match access_outcome(v.to_memory, answer) {
                Ok(w) => w,
                Err(fault) => MemWb::bubble(),
            },
        },
    }
}

/// Whether the control lines of a core let all five stages commit.
pub open spec fn all_commit<C: Cache, D: MemoryDevice>(core: RiscCore<C, D>) -> bool {
    &&& core.pipeline_control_signals@.len() >= NUM_STAGES
    &&& forall|i: int| 0 <= i < NUM_STAGES ==> commits(#[trigger] core.pipeline_control_signals@[i])
}

/// The word that the next cycle of a core fetches, where its instruction
/// cache hits.
pub open spec fn next_word<C: Cache, D: MemoryDevice>(core: RiscCore<C, D>) -> RiscWord {
    le_u32(core.icache.unwrap().response(fetch_request(next_fetch(core))).data, 0)
}

/// What the data cache, or the unit behind it, answers to the load or store
/// that the next cycle of a core makes, if it makes one.
pub open spec fn next_answer<C: Cache, D: MemoryDevice>(core: RiscCore<C, D>) -> MemoryResponseView {
    match access_of(flow_of(core).to_memory) {
        None => MemoryResponseView::bare(MemoryResponseType::Valid),
        Some(request) => match routed_outcome(core.dcache, core.mmu, request) {
            Ok(response) => response,
            Err(fault) => MemoryResponseView::bare(MemoryResponseType::Valid),
        },
    }
}

/// A cycle without a fault in which every stage commits and the instruction
/// cache hits takes what the pipeline holds to what `stepped` makes of it.
/// The control lines stay, the instruction cache has served the read, and
/// the data cache has served the load or store of the cycle or is as it was.
pub proof fn lemma_cycle_steps_flow<C: Cache, D: MemoryDevice>(
    before: RiscCore<C, D>,
    after: RiscCore<C, D>,
)
    requires
        RiscCore::cycle(before, after, None),
        all_commit(before),
        before.icache.is_some(),
        before.icache.unwrap().response(fetch_request(next_fetch(before))).status
            == MemoryResponseType::CacheHit,
    ensures
        flow_of(after) == stepped(flow_of(before), next_word(before), next_answer(before)),
        all_commit(after),
        after.icache.is_some(),
        device_step(
            before.icache.unwrap(),
            after.icache.unwrap(),
            fetch_request(next_fetch(before)),
        ),
        match access_of(flow_of(before).to_memory) {
            None => after.dcache == before.dcache,
            Some(request) => before.dcache.is_some() && after.dcache.is_some() && device_step(
                before.dcache.unwrap(),
                after.dcache.unwrap(),
                request,
            ),
        },
{
    let v = flow_of(before);
    lemma_cycle_hands_on(before, after);
    lemma_cycle_registers(before, after);
    lemma_cycle_program_counter(before, after);
    lemma_cycle_fetch(before, after);
    lemma_cycle_decode(before, after);
    lemma_cycle_execute(before, after);
    lemma_zero_payload_is_bubble(before.stages@[EX_STAGE as int].size_out as nat);
    execute_spec(v.to_execute, memory_forward(v.to_memory), commit_of(v.to_writeback)).lemma_round_trip();
    assert(commits(before.pipeline_control_signals@[IF_STAGE as int]));
    assert(commits(before.pipeline_control_signals@[ID_STAGE as int]));
    assert(commits(before.pipeline_control_signals@[EX_STAGE as int]));
    assert(commits(before.pipeline_control_signals@[MEM_STAGE as int]));
    match access_of(v.to_memory) {
        None => {
            lemma_cycle_memory(before, after);
            crate::laws::lemma_cycle_data_cache(before, after);
        },
        Some(request) => {
            lemma_cycle_memory_access(before, after);
        },
    }
    assert(flow_of(after).registers == stepped(v, next_word(before), next_answer(before)).registers);
}

} // verus!
