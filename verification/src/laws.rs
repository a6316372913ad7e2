//! What holds of every cycle of the pipeline: register zero stays zero, the
//! program counter advances by four on linear code, a taken branch squashes
//! the two instructions behind it, and a result reaches the instruction right
//! behind it by forwarding.

use crate::cache::Cache;
use crate::clock::{
    commits, input_of, lemma_lanes_after_memory, stage_committed, stage_sampled, RunReport,
};
use crate::decode::{
    branch_or_jump_of, decode_spec, decode_step, lemma_decode_step, opcode_of, rs1_of, rs2_of,
};
use crate::execute::{add32, execute_spec, execute_step, forwarded};
use crate::fetch::{
    fetch_address, fetch_request, fetch_step, fetched, lemma_fetch_step, lemma_fetch_step_routes,
};
use crate::mcu_core::{
    stage_is_fresh, EX_STAGE, ID_STAGE, IF_STAGE, MEM_STAGE, NUM_STAGES, WB_STAGE,
};
use crate::memory::{
    access_of, access_outcome, branch_signal, lemma_memory_step, lemma_memory_step_routes,
    memory_forward, memory_step, pass_through,
};
use crate::memory_management_unit::{
    device_step, MemoryDevice, MemoryResponseType, MemoryResponseView,
};
use crate::payload::{lemma_zero_payload_is_bubble, ExMem, Forward, IdEx, IfId, MemWb};
use crate::pipeline_stage::{Instruction, StageError};
use crate::risc_soc::{committed, geometry_kept, routed_outcome, RiscCore, NUM_REGISTERS};
use crate::risc_word::{le_u32, zero_bytes, RiscWord};
use crate::writeback::{commit_of, lemma_writeback_step};
use vstd::prelude::*;

verus! {

/// The states that a core goes through within one cycle, and what its stages
/// put out: `c0` once the stages have sampled their inputs and found
/// `sampled`, `c1` after writeback, `c2` after memory, `c3` after decode,
/// `c4` after fetch.
pub struct CycleTrace<C: Cache, D: MemoryDevice> {
    pub sampled: Seq<Instruction>,
    pub c0: RiscCore<C, D>,
    pub c1: RiscCore<C, D>,
    pub c2: RiscCore<C, D>,
    pub c3: RiscCore<C, D>,
    pub c4: RiscCore<C, D>,
    pub wb_out: Seq<u8>,
    pub mem_out: Result<Seq<u8>, StageError>,
    pub id_out: Result<Seq<u8>, StageError>,
    pub if_out: Result<Seq<u8>, StageError>,
    pub candidates: Result<Seq<Seq<u8>>, StageError>,
}

/// Whether the trace starts as a cycle of `before` starts.
#[verifier::opaque]
pub open spec fn trace_begins<C: Cache, D: MemoryDevice>(
    t: CycleTrace<C, D>,
    before: RiscCore<C, D>,
) -> bool {
    RiscCore::begun(before, t.c0, t.sampled)
}

/// Whether the trace goes through the logic of the stages as a cycle does.
#[verifier::opaque]
pub open spec fn trace_evaluates<C: Cache, D: MemoryDevice>(t: CycleTrace<C, D>) -> bool {
    RiscCore::evaluated_through(
        t.c0,
        t.c1,
        t.c2,
        t.c3,
        t.c4,
        t.wb_out,
        t.mem_out,
        t.id_out,
        t.if_out,
        t.candidates,
    )
}

/// Whether the trace ends in `after` with `fault` as a cycle does.
#[verifier::opaque]
pub open spec fn trace_ends<C: Cache, D: MemoryDevice>(
    t: CycleTrace<C, D>,
    after: RiscCore<C, D>,
    fault: Option<StageError>,
) -> bool {
    match t.candidates {
        Err(found) => after == t.c4 && fault == Some(found),
        Ok(outputs) => RiscCore::ended(t.c4, t.sampled, outputs, after) && fault.is_none(),
    }
}

/// Whether the trace is one of a cycle that leads from `before` to `after`
/// and ends with `fault`.
pub open spec fn traces<C: Cache, D: MemoryDevice>(
    t: CycleTrace<C, D>,
    before: RiscCore<C, D>,
    after: RiscCore<C, D>,
    fault: Option<StageError>,
) -> bool {
    trace_begins(t, before) && trace_evaluates(t) && trace_ends(t, after, fault)
}

/// Every cycle has a trace.
pub proof fn lemma_cycle_has_trace<C: Cache, D: MemoryDevice>(
    before: RiscCore<C, D>,
    after: RiscCore<C, D>,
    fault: Option<StageError>,
) -> (t: CycleTrace<C, D>)
    requires
        RiscCore::cycle(before, after, fault),
    ensures
        traces(t, before, after, fault),
{
    reveal(RiscCore::cycle);
    reveal(trace_begins);
    reveal(trace_evaluates);
    reveal(trace_ends);
    let (c0, c4, sampled, candidates) = choose|
        c0: RiscCore<C, D>,
        c4: RiscCore<C, D>,
        sampled: Seq<Instruction>,
        candidates: Result<Seq<Seq<u8>>, StageError>,
    | #[trigger]
        RiscCore::cycle_through(before, c0, c4, sampled, candidates, after, fault);
    let (c1, c2, c3, wb_out, mem_out, id_out, if_out) = choose|
        c1: RiscCore<C, D>,
        c2: RiscCore<C, D>,
        c3: RiscCore<C, D>,
        wb_out: Seq<u8>,
        mem_out: Result<Seq<u8>, StageError>,
        id_out: Result<Seq<u8>, StageError>,
        if_out: Result<Seq<u8>, StageError>,
    | #[trigger]
        RiscCore::evaluated_through(
            c0,
            c1,
            c2,
            c3,
            c4,
            wb_out,
            mem_out,
            id_out,
            if_out,
            candidates,
        );
    CycleTrace {
        sampled,
        c0,
        c1,
        c2,
        c3,
        c4,
        wb_out,
        mem_out,
        id_out,
        if_out,
        candidates,
    }
}

/// Register zero holds zero after every cycle, whatever the instructions in
/// the pipeline and however the cycle ends.
pub proof fn lemma_cycle_keeps_register_zero<C: Cache, D: MemoryDevice>(
    before: RiscCore<C, D>,
    after: RiscCore<C, D>,
    fault: Option<StageError>,
)
    requires
        RiscCore::cycle(before, after, fault),
    ensures
        after.registers@[0] == 0,
{
    let t = lemma_cycle_has_trace(before, after, fault);
    reveal(trace_evaluates);
    reveal(trace_ends);
    lemma_writeback_step(t.c0, t.c0.stages@[WB_STAGE as int].data_in@, t.c1, t.wb_out);
    lemma_memory_step(t.c1, t.c0.stages@[MEM_STAGE as int].data_in@, t.c2, t.mem_out);
    if t.mem_out.is_ok() {
        lemma_decode_step(t.c2, t.c0.stages@[ID_STAGE as int].data_in@, t.c3, t.id_out);
        if t.id_out.is_ok() {
            lemma_fetch_step(t.c3, t.c4, t.if_out);
        }
    }
}

/// Register zero holds zero after every run of cycles that starts with it
/// holding zero.
pub proof fn lemma_run_keeps_register_zero<C: Cache, D: MemoryDevice>(
    before: RiscCore<C, D>,
    after: RiscCore<C, D>,
    n: nat,
)
    requires
        RiscCore::reaches(before, after, n),
        before.registers@[0] == 0,
    ensures
        after.registers@[0] == 0,
    decreases n,
{
    if n > 0 {
        let mid = choose|mid: RiscCore<C, D>|
            RiscCore::reaches(before, mid, (n - 1) as nat) && #[trigger] RiscCore::cycle(
                mid,
                after,
                None,
            );
        lemma_cycle_keeps_register_zero(mid, after, None);
    }
}

/// What the wires that fetch, decode and execute read carry once writeback
/// and memory have worked in a cycle: the commit of the instruction in
/// writeback, and the branch resolution and the result of the instruction in
/// the memory stage.
#[verifier::rlimit(40)]
pub proof fn lemma_cycle_signals<C: Cache, D: MemoryDevice>(
    t: CycleTrace<C, D>,
    before: RiscCore<C, D>,
    after: RiscCore<C, D>,
    fault: Option<StageError>,
)
    requires
        traces(t, before, after, fault),
    ensures
        t.c0.stages@[WB_STAGE as int].data_in@ == input_of(before, WB_STAGE as int),
        t.c0.stages@[MEM_STAGE as int].data_in@ == input_of(before, MEM_STAGE as int),
        t.c0.stages@[EX_STAGE as int].data_in@ == input_of(before, EX_STAGE as int),
        t.c0.stages@[ID_STAGE as int].data_in@ == input_of(before, ID_STAGE as int),
        t.c0.registers == before.registers,
        t.c0.program_counter == before.program_counter,
        t.c0.pipeline_control_signals == before.pipeline_control_signals,
        t.c0.dcache == before.dcache,
        t.c0.icache == before.icache,
        t.c0.mmu == before.mmu,
        t.c2.registers == before.registers,
        t.c2.program_counter == before.program_counter,
        t.c2.icache == before.icache,
        t.c2.stages == t.c0.stages,
        t.c2.cdb.sampled(WB_STAGE as int, ID_STAGE as int) == commit_of(
            MemWb::from_bytes(input_of(before, WB_STAGE as int)),
        ).to_bytes(),
        t.c2.cdb.sampled(WB_STAGE as int, EX_STAGE as int) == commit_of(
            MemWb::from_bytes(input_of(before, WB_STAGE as int)),
        ).to_bytes(),
        t.c2.cdb.sampled(MEM_STAGE as int, IF_STAGE as int) == branch_signal(
            ExMem::from_bytes(input_of(before, MEM_STAGE as int)),
        ).to_bytes(),
        t.c2.cdb.sampled(MEM_STAGE as int, ID_STAGE as int) == branch_signal(
            ExMem::from_bytes(input_of(before, MEM_STAGE as int)),
        ).to_bytes(),
        t.c2.cdb.sampled(MEM_STAGE as int, EX_STAGE as int) == memory_forward(
            ExMem::from_bytes(input_of(before, MEM_STAGE as int)),
        ).to_bytes(),
        t.c2.pipeline_control_signals == before.pipeline_control_signals,
        before.pipeline_control_signals@.len() >= NUM_STAGES,
        before.stages@.len() == NUM_STAGES,
{
    reveal(trace_begins);
    reveal(trace_evaluates);
    let wb_in = t.c0.stages@[WB_STAGE as int].data_in@;
    let mem_in = t.c0.stages@[MEM_STAGE as int].data_in@;
    assert(stage_sampled(
        before.stages@[WB_STAGE as int],
        t.c0.stages@[WB_STAGE as int],
        t.sampled[WB_STAGE as int],
    ));
    assert(stage_sampled(
        before.stages@[MEM_STAGE as int],
        t.c0.stages@[MEM_STAGE as int],
        t.sampled[MEM_STAGE as int],
    ));
    assert(stage_sampled(
        before.stages@[EX_STAGE as int],
        t.c0.stages@[EX_STAGE as int],
        t.sampled[EX_STAGE as int],
    ));
    assert(stage_sampled(
        before.stages@[ID_STAGE as int],
        t.c0.stages@[ID_STAGE as int],
        t.sampled[ID_STAGE as int],
    ));
    lemma_writeback_step(t.c0, wb_in, t.c1, t.wb_out);
    lemma_memory_step(t.c1, mem_in, t.c2, t.mem_out);
    let e = ExMem::from_bytes(mem_in);
    lemma_lanes_after_memory(
        t.c0.cdb@,
        t.c1.cdb@,
        t.c2.cdb@,
        commit_of(MemWb::from_bytes(wb_in)).to_bytes(),
        (branch_signal(e).to_bytes(), memory_forward(e).to_bytes()),
    );
}

/// What the core is within a cycle without a fault once decode and fetch
/// have worked: the register file has taken the commit of the instruction in
/// writeback, the program counter is the address fetched from, and the
/// stages, the control lines and the data cache are as the memory stage left
/// them.
#[verifier::rlimit(40)]
pub proof fn lemma_cycle_front<C: Cache, D: MemoryDevice>(
    t: CycleTrace<C, D>,
    before: RiscCore<C, D>,
    after: RiscCore<C, D>,
)
    requires
        traces(t, before, after, None),
    ensures
        t.candidates.is_ok(),
        t.candidates.unwrap().len() == NUM_STAGES,
        t.mem_out.is_ok(),
        t.id_out.is_ok(),
        t.if_out.is_ok(),
        t.candidates.unwrap()[EX_STAGE as int] == execute_step(
            t.c2,
            t.c0.stages@[EX_STAGE as int].data_in@,
        ),
        t.candidates.unwrap()[ID_STAGE as int] == t.id_out.unwrap(),
        t.candidates.unwrap()[MEM_STAGE as int] == t.mem_out.unwrap(),
        decode_step(t.c2, t.c0.stages@[ID_STAGE as int].data_in@, t.c3, t.id_out),
        memory_step(t.c1, t.c0.stages@[MEM_STAGE as int].data_in@, t.c2, t.mem_out),
        t.c1.dcache == before.dcache,
        t.c1.mmu == before.mmu,
        t.c4.registers@ == committed(
            before.registers@,
            commit_of(MemWb::from_bytes(input_of(before, WB_STAGE as int))),
        ),
        t.c4.program_counter == fetch_address(
            before.program_counter,
            branch_signal(ExMem::from_bytes(input_of(before, MEM_STAGE as int))),
        ),
        t.c4.pipeline_control_signals == t.c2.pipeline_control_signals,
        t.c4.stages == t.c0.stages,
        t.c4.dcache == t.c2.dcache,
        t.c3.registers == t.c4.registers,
        t.c3.cdb == t.c2.cdb,
        after.registers == t.c4.registers,
        after.dcache == t.c4.dcache,
        after.pipeline_control_signals == t.c4.pipeline_control_signals,
        after.stages@.len() == NUM_STAGES,
        after.program_counter == (if commits(
            t.c4.pipeline_control_signals@[IF_STAGE as int],
        ) {
            add32(t.c4.program_counter, 4)
        } else {
            t.c4.program_counter
        }),
        t.c4.squashing() == branch_signal(
            ExMem::from_bytes(input_of(before, MEM_STAGE as int)),
        ).taken(),
        stage_committed(
            t.c0.stages@[EX_STAGE as int],
            t.c4.pipeline_control_signals@[EX_STAGE as int],
            t.c4.squashing(),
            t.sampled[EX_STAGE as int],
            t.candidates.unwrap()[EX_STAGE as int],
            after.stages@[EX_STAGE as int],
        ),
        stage_committed(
            t.c0.stages@[ID_STAGE as int],
            t.c4.pipeline_control_signals@[ID_STAGE as int],
            false,
            t.sampled[ID_STAGE as int],
            t.candidates.unwrap()[ID_STAGE as int],
            after.stages@[ID_STAGE as int],
        ),
        stage_committed(
            t.c0.stages@[MEM_STAGE as int],
            t.c4.pipeline_control_signals@[MEM_STAGE as int],
            false,
            t.sampled[MEM_STAGE as int],
            t.candidates.unwrap()[MEM_STAGE as int],
            after.stages@[MEM_STAGE as int],
        ),
        t.c0.stages@[MEM_STAGE as int].data_out == before.stages@[MEM_STAGE as int].data_out,
        t.c0.stages@[MEM_STAGE as int].size_out == before.stages@[MEM_STAGE as int].size_out,
        t.c0.stages@[EX_STAGE as int].data_out == before.stages@[EX_STAGE as int].data_out,
        t.c0.stages@[EX_STAGE as int].size_out == before.stages@[EX_STAGE as int].size_out,
        t.c0.stages@[ID_STAGE as int].data_out == before.stages@[ID_STAGE as int].data_out,
        t.c0.stages@[ID_STAGE as int].size_out == before.stages@[ID_STAGE as int].size_out,
        input_of(after, ID_STAGE as int) == after.stages@[IF_STAGE as int].data_out@,
        input_of(after, EX_STAGE as int) == after.stages@[ID_STAGE as int].data_out@,
        input_of(after, MEM_STAGE as int) == after.stages@[EX_STAGE as int].data_out@,
        input_of(after, WB_STAGE as int) == after.stages@[MEM_STAGE as int].data_out@,
{
    reveal(trace_begins);
    reveal(trace_evaluates);
    reveal(trace_ends);
    reveal(RiscCore::squashing);
    lemma_cycle_signals(t, before, after, None);
    assert(stage_sampled(
        before.stages@[EX_STAGE as int],
        t.c0.stages@[EX_STAGE as int],
        t.sampled[EX_STAGE as int],
    ));
    assert(stage_sampled(
        before.stages@[ID_STAGE as int],
        t.c0.stages@[ID_STAGE as int],
        t.sampled[ID_STAGE as int],
    ));
    assert(stage_sampled(
        before.stages@[MEM_STAGE as int],
        t.c0.stages@[MEM_STAGE as int],
        t.sampled[MEM_STAGE as int],
    ));
    assert(after.stages@[ID_STAGE as int].input_channel.unwrap().held() == Some(
        (after.stages@[IF_STAGE as int].instruction, after.stages@[IF_STAGE as int].data_out@),
    ));
    assert(after.stages@[EX_STAGE as int].input_channel.unwrap().held() == Some(
        (after.stages@[ID_STAGE as int].instruction, after.stages@[ID_STAGE as int].data_out@),
    ));
    assert(after.stages@[MEM_STAGE as int].input_channel.unwrap().held() == Some(
        (after.stages@[EX_STAGE as int].instruction, after.stages@[EX_STAGE as int].data_out@),
    ));
    assert(after.stages@[WB_STAGE as int].input_channel.unwrap().held() == Some(
        (after.stages@[MEM_STAGE as int].instruction, after.stages@[MEM_STAGE as int].data_out@),
    ));
    let id_in = t.c0.stages@[ID_STAGE as int].data_in@;
    let e = ExMem::from_bytes(t.c0.stages@[MEM_STAGE as int].data_in@);
    let w = MemWb::from_bytes(t.c0.stages@[WB_STAGE as int].data_in@);
    lemma_writeback_step(t.c0, t.c0.stages@[WB_STAGE as int].data_in@, t.c1, t.wb_out);
    lemma_memory_step(t.c1, t.c0.stages@[MEM_STAGE as int].data_in@, t.c2, t.mem_out);
    lemma_decode_step(t.c2, id_in, t.c3, t.id_out);
    lemma_fetch_step(t.c3, t.c4, t.if_out);
    branch_signal(e).lemma_round_trip();
    commit_of(w).lemma_round_trip();
}

/// A cycle without a fault writes the register file once: with the commit of
/// the instruction that writeback samples at the start of the cycle.
pub proof fn lemma_cycle_registers<C: Cache, D: MemoryDevice>(
    before: RiscCore<C, D>,
    after: RiscCore<C, D>,
)
    requires
        RiscCore::cycle(before, after, None),
    ensures
        after.registers@ == committed(
            before.registers@,
            commit_of(MemWb::from_bytes(input_of(before, WB_STAGE as int))),
        ),
{
    let t = lemma_cycle_has_trace(before, after, None);
    lemma_cycle_front(t, before, after);
}

/// After a cycle without a fault the program counter is the address that was
/// fetched from, plus four, modulo 2^32, if the fetch stage committed. The
/// address fetched from is the target of a taken branch in the memory stage,
/// else the program counter before the cycle.
pub proof fn lemma_cycle_program_counter<C: Cache, D: MemoryDevice>(
    before: RiscCore<C, D>,
    after: RiscCore<C, D>,
)
    requires
        RiscCore::cycle(before, after, None),
    ensures
        before.pipeline_control_signals@.len() >= NUM_STAGES,
        after.program_counter == (if commits(before.pipeline_control_signals@[IF_STAGE as int]) {
            add32(
                fetch_address(
                    before.program_counter,
                    branch_signal(ExMem::from_bytes(input_of(before, MEM_STAGE as int))),
                ),
                4,
            )
        } else {
            fetch_address(
                before.program_counter,
                branch_signal(ExMem::from_bytes(input_of(before, MEM_STAGE as int))),
            )
        }),
{
    let t = lemma_cycle_has_trace(before, after, None);
    lemma_cycle_signals(t, before, after, None);
    lemma_cycle_front(t, before, after);
}

/// The address that the next cycle of a core fetches from: the target of a
/// taken branch or jump in the memory stage, else the program counter.
pub open spec fn next_fetch<C: Cache, D: MemoryDevice>(core: RiscCore<C, D>) -> RiscWord {
    fetch_address(
        core.program_counter,
        branch_signal(ExMem::from_bytes(input_of(core, MEM_STAGE as int))),
    )
}

/// What the fetch stage holds at the end of a cycle without a fault in
/// which it commits and the instruction cache hits: the word that the cache
/// answers with, which has four bytes, and the address fetched from. The
/// cache is afterwards what the read makes of it.
pub proof fn lemma_cycle_fetch<C: Cache, D: MemoryDevice>(
    before: RiscCore<C, D>,
    after: RiscCore<C, D>,
)
    requires
        RiscCore::cycle(before, after, None),
        commits(before.pipeline_control_signals@[IF_STAGE as int]),
        before.icache.is_some(),
        before.icache.unwrap().response(fetch_request(next_fetch(before))).status
            == MemoryResponseType::CacheHit,
    ensures
        after.stages@.len() == NUM_STAGES,
        before.icache.unwrap().response(fetch_request(next_fetch(before))).data.len() == 4,
        IfId::from_bytes(after.stages@[IF_STAGE as int].data_out@) == (IfId {
            instruction: le_u32(
                before.icache.unwrap().response(fetch_request(next_fetch(before))).data,
                0,
            ),
            pc: next_fetch(before),
        }),
        after.icache.is_some(),
        device_step(
            before.icache.unwrap(),
            after.icache.unwrap(),
            fetch_request(next_fetch(before)),
        ),
{
    let t = lemma_cycle_has_trace(before, after, None);
    lemma_cycle_signals(t, before, after, None);
    lemma_cycle_front(t, before, after);
    reveal(trace_begins);
    reveal(trace_evaluates);
    reveal(trace_ends);
    lemma_writeback_step(t.c0, t.c0.stages@[WB_STAGE as int].data_in@, t.c1, t.wb_out);
    lemma_memory_step(t.c1, t.c0.stages@[MEM_STAGE as int].data_in@, t.c2, t.mem_out);
    lemma_decode_step(t.c2, t.c0.stages@[ID_STAGE as int].data_in@, t.c3, t.id_out);
    reveal(fetch_step);
    let address = next_fetch(before);
    let response = before.icache.unwrap().response(fetch_request(address));
    assert(t.c3.icache == before.icache);
    assert(t.c4.program_counter == address);
    assert(t.if_out == fetched(address, Ok::<MemoryResponseView, StageError>(response)));
    let f = IfId { instruction: le_u32(response.data, 0), pc: address };
    f.lemma_round_trip();
    assert(stage_committed(
        t.c0.stages@[IF_STAGE as int],
        t.c4.pipeline_control_signals@[IF_STAGE as int],
        false,
        t.sampled[IF_STAGE as int],
        t.candidates.unwrap()[IF_STAGE as int],
        after.stages@[IF_STAGE as int],
    ));
}

/// What a cycle without a fault in which the instruction cache hits makes of
/// the memory management unit: the unit has served the load or store of the
/// cycle if there is one and the data cache did not hit, and is as it was
/// otherwise.
pub proof fn lemma_cycle_unit<C: Cache, D: MemoryDevice>(
    before: RiscCore<C, D>,
    after: RiscCore<C, D>,
)
    requires
        RiscCore::cycle(before, after, None),
        before.icache.is_some(),
        before.icache.unwrap().response(fetch_request(next_fetch(before))).status
            == MemoryResponseType::CacheHit,
    ensures
        match access_of(ExMem::from_bytes(input_of(before, MEM_STAGE as int))) {
            None => after.mmu == before.mmu,
            Some(request) => before.dcache.is_some() && if before.dcache.unwrap().response(
                request,
            ).status == MemoryResponseType::CacheHit {
                after.mmu == before.mmu
            } else {
                before.mmu.served(&after.mmu, request)
            },
        },
{
    let t = lemma_cycle_has_trace(before, after, None);
    lemma_cycle_signals(t, before, after, None);
    lemma_cycle_front(t, before, after);
    reveal(trace_begins);
    reveal(trace_evaluates);
    reveal(trace_ends);
    lemma_writeback_step(t.c0, t.c0.stages@[WB_STAGE as int].data_in@, t.c1, t.wb_out);
    lemma_memory_step(t.c1, t.c0.stages@[MEM_STAGE as int].data_in@, t.c2, t.mem_out);
    lemma_memory_step_routes(t.c1, t.c0.stages@[MEM_STAGE as int].data_in@, t.c2, t.mem_out);
    lemma_decode_step(t.c2, t.c0.stages@[ID_STAGE as int].data_in@, t.c3, t.id_out);
    lemma_fetch_step(t.c3, t.c4, t.if_out);
    lemma_fetch_step_routes(t.c3, t.c4, t.if_out);
    assert(t.c3.icache == before.icache);
    assert(t.c3.mmu == t.c2.mmu);
    assert(t.c4.program_counter == next_fetch(before));
    assert(t.c4.mmu == t.c3.mmu);
    assert(after.mmu == t.c4.mmu);
}

/// At the end of a cycle without a fault every stage but the first finds in
/// its register what the stage before it holds.
pub proof fn lemma_cycle_hands_on<C: Cache, D: MemoryDevice>(
    before: RiscCore<C, D>,
    after: RiscCore<C, D>,
)
    requires
        RiscCore::cycle(before, after, None),
    ensures
        after.stages@.len() == NUM_STAGES,
        input_of(after, ID_STAGE as int) == after.stages@[IF_STAGE as int].data_out@,
        input_of(after, EX_STAGE as int) == after.stages@[ID_STAGE as int].data_out@,
        input_of(after, MEM_STAGE as int) == after.stages@[EX_STAGE as int].data_out@,
        input_of(after, WB_STAGE as int) == after.stages@[MEM_STAGE as int].data_out@,
{
    let t = lemma_cycle_has_trace(before, after, None);
    lemma_cycle_front(t, before, after);
}

/// What the execute stage holds at the end of a cycle without a fault: zeros
/// where its reset line is set or the memory stage holds a taken branch;
/// else, if the stage is enabled, what `execute_spec` gives for the record
/// it sampled, with the result of the instruction in the memory stage and
/// the commit of the instruction in writeback forwarded to it; else what it
/// held.
pub proof fn lemma_cycle_execute<C: Cache, D: MemoryDevice>(
    before: RiscCore<C, D>,
    after: RiscCore<C, D>,
)
    requires
        RiscCore::cycle(before, after, None),
    ensures
        before.stages@.len() == NUM_STAGES,
        after.stages@.len() == NUM_STAGES,
        before.pipeline_control_signals@.len() >= NUM_STAGES,
        after.pipeline_control_signals == before.pipeline_control_signals,
        after.stages@[EX_STAGE as int].data_out@ == (if before.pipeline_control_signals@[EX_STAGE as int].reset
            || branch_signal(ExMem::from_bytes(input_of(before, MEM_STAGE as int))).taken() {
            zero_bytes(before.stages@[EX_STAGE as int].size_out as nat)
        } else if before.pipeline_control_signals@[EX_STAGE as int].enable {
            execute_spec(
                IdEx::from_bytes(input_of(before, EX_STAGE as int)),
                memory_forward(ExMem::from_bytes(input_of(before, MEM_STAGE as int))),
                commit_of(MemWb::from_bytes(input_of(before, WB_STAGE as int))),
            ).to_bytes()
        } else {
            before.stages@[EX_STAGE as int].data_out@
        }),
{
    let t = lemma_cycle_has_trace(before, after, None);
    lemma_cycle_signals(t, before, after, None);
    lemma_cycle_front(t, before, after);
    let e = ExMem::from_bytes(t.c0.stages@[MEM_STAGE as int].data_in@);
    let w = MemWb::from_bytes(t.c0.stages@[WB_STAGE as int].data_in@);
    memory_forward(e).lemma_round_trip();
    commit_of(w).lemma_round_trip();
}

/// What the decode stage holds at the end of a cycle without a fault in
/// which it commits: what `decode_spec` gives for the instruction it
/// sampled, the branch resolution of the instruction in the memory stage,
/// and the values of the source registers after the commit of the cycle.
/// Where its reset line is set, it holds zeros; where it is stalled, what
/// it held.
pub proof fn lemma_cycle_decode<C: Cache, D: MemoryDevice>(
    before: RiscCore<C, D>,
    after: RiscCore<C, D>,
)
    requires
        RiscCore::cycle(before, after, None),
    ensures
        before.stages@.len() == NUM_STAGES,
        after.stages@.len() == NUM_STAGES,
        before.pipeline_control_signals@.len() >= NUM_STAGES,
        commits(before.pipeline_control_signals@[ID_STAGE as int]) ==> Some(
            IdEx::from_bytes(after.stages@[ID_STAGE as int].data_out@),
        ) == decode_spec(
            IfId::from_bytes(input_of(before, ID_STAGE as int)),
            branch_signal(ExMem::from_bytes(input_of(before, MEM_STAGE as int))),
            after.registers@[rs1_of(
                IfId::from_bytes(input_of(before, ID_STAGE as int)).instruction,
            ) as int],
            after.registers@[rs2_of(
                IfId::from_bytes(input_of(before, ID_STAGE as int)).instruction,
            ) as int],
        ),
        before.pipeline_control_signals@[ID_STAGE as int].reset
            ==> after.stages@[ID_STAGE as int].data_out@ == zero_bytes(
            before.stages@[ID_STAGE as int].size_out as nat,
        ),
        !before.pipeline_control_signals@[ID_STAGE as int].reset
            && !before.pipeline_control_signals@[ID_STAGE as int].enable
            ==> after.stages@[ID_STAGE as int].data_out@
            == before.stages@[ID_STAGE as int].data_out@,
{
    let t = lemma_cycle_has_trace(before, after, None);
    lemma_cycle_signals(t, before, after, None);
    lemma_cycle_front(t, before, after);
    let id_in = t.c0.stages@[ID_STAGE as int].data_in@;
    let e = ExMem::from_bytes(t.c0.stages@[MEM_STAGE as int].data_in@);
    let w = MemWb::from_bytes(t.c0.stages@[WB_STAGE as int].data_in@);
    branch_signal(e).lemma_round_trip();
    commit_of(w).lemma_round_trip();
    if commits(before.pipeline_control_signals@[ID_STAGE as int]) {
        reveal(decode_step);
        let issued = decode_spec(
            IfId::from_bytes(id_in),
            branch_signal(e),
            after.registers@[rs1_of(IfId::from_bytes(id_in).instruction) as int],
            after.registers@[rs2_of(IfId::from_bytes(id_in).instruction) as int],
        );
        assert(issued.is_some());
        issued.unwrap().lemma_round_trip();
    }
}

/// A cycle changes the geometry of no memory, whether it ends with a fault
/// or without one: each cache of the core is there if and only if it was,
/// with the kind, range, size and line size it had, and the memory
/// management unit has the devices it had, in the same places, each with its
/// own. So whether a later access runs over the end of a line is decided by
/// its address and width alone, as it was before the cycle.
pub proof fn lemma_cycle_keeps_geometry<C: Cache, D: MemoryDevice>(
    before: RiscCore<C, D>,
    after: RiscCore<C, D>,
    fault: Option<StageError>,
)
    requires
        RiscCore::cycle(before, after, fault),
    ensures
        geometry_kept(before.icache, after.icache),
        geometry_kept(before.dcache, after.dcache),
        after.mmu.same_map(&before.mmu),
{
    let t = lemma_cycle_has_trace(before, after, fault);
    reveal(trace_begins);
    reveal(trace_evaluates);
    reveal(trace_ends);
    lemma_writeback_step(t.c0, t.c0.stages@[WB_STAGE as int].data_in@, t.c1, t.wb_out);
    lemma_memory_step(t.c1, t.c0.stages@[MEM_STAGE as int].data_in@, t.c2, t.mem_out);
    assert(t.c2.mmu.same_map(&before.mmu));
    assert(geometry_kept(before.dcache, t.c2.dcache));
    assert(t.c2.icache == before.icache);
    if t.mem_out.is_ok() {
        lemma_decode_step(t.c2, t.c0.stages@[ID_STAGE as int].data_in@, t.c3, t.id_out);
        if t.id_out.is_ok() {
            lemma_fetch_step(t.c3, t.c4, t.if_out);
            assert(t.c4.mmu.same_map(&t.c2.mmu));
        }
    }
    assert(t.c4.mmu.same_map(&before.mmu));
    assert(geometry_kept(before.icache, t.c4.icache));
    assert(geometry_kept(before.dcache, t.c4.dcache));
}

/// A run changes the geometry of no memory.
pub proof fn lemma_run_keeps_geometry<C: Cache, D: MemoryDevice>(
    before: RiscCore<C, D>,
    after: RiscCore<C, D>,
    n: nat,
)
    requires
        RiscCore::reaches(before, after, n),
    ensures
        geometry_kept(before.icache, after.icache),
        geometry_kept(before.dcache, after.dcache),
        after.mmu.same_map(&before.mmu),
    decreases n,
{
    if n > 0 {
        let mid = choose|mid: RiscCore<C, D>|
            RiscCore::reaches(before, mid, (n - 1) as nat) && #[trigger] RiscCore::cycle(
                mid,
                after,
                None,
            );
        lemma_run_keeps_geometry(before, mid, (n - 1) as nat);
        lemma_cycle_keeps_geometry(mid, after, None);
    }
}

/// A cycle without a fault leaves the data cache as it is unless the
/// instruction in the memory stage is a load or a store.
pub proof fn lemma_cycle_data_cache<C: Cache, D: MemoryDevice>(
    before: RiscCore<C, D>,
    after: RiscCore<C, D>,
)
    requires
        RiscCore::cycle(before, after, None),
        access_of(ExMem::from_bytes(input_of(before, MEM_STAGE as int))).is_none(),
    ensures
        after.dcache == before.dcache,
{
    let t = lemma_cycle_has_trace(before, after, None);
    lemma_cycle_signals(t, before, after, None);
    lemma_cycle_front(t, before, after);
    reveal(memory_step);
}

/// What the memory stage hands to writeback at the end of a cycle without a
/// fault in which its instruction is neither a load nor a store and the
/// stage is not stalled: the record of that instruction as it came from
/// execute, with no loaded value; or a bubble where the reset line of the
/// stage is set.
pub proof fn lemma_cycle_memory<C: Cache, D: MemoryDevice>(
    before: RiscCore<C, D>,
    after: RiscCore<C, D>,
)
    requires
        RiscCore::cycle(before, after, None),
        access_of(ExMem::from_bytes(input_of(before, MEM_STAGE as int))).is_none(),
    ensures
        before.pipeline_control_signals@.len() >= NUM_STAGES,
        before.pipeline_control_signals@[MEM_STAGE as int].reset ==> MemWb::from_bytes(
            input_of(after, WB_STAGE as int),
        ) == MemWb::bubble(),
        commits(before.pipeline_control_signals@[MEM_STAGE as int]) ==> MemWb::from_bytes(
            input_of(after, WB_STAGE as int),
        ) == pass_through(ExMem::from_bytes(input_of(before, MEM_STAGE as int))),
{
    let t = lemma_cycle_has_trace(before, after, None);
    lemma_cycle_signals(t, before, after, None);
    lemma_cycle_front(t, before, after);
    reveal(memory_step);
    pass_through(ExMem::from_bytes(input_of(before, MEM_STAGE as int))).lemma_round_trip();
    lemma_zero_payload_is_bubble(before.stages@[MEM_STAGE as int].size_out as nat);
}

/// What the memory stage hands to writeback at the end of a cycle without a
/// fault in which its instruction is a load or a store and the stage
/// commits: what `access_outcome` makes of the answer of the data cache or,
/// unless that hit, of the unit behind it. There is a data cache, and it has
/// served the request.
pub proof fn lemma_cycle_memory_access<C: Cache, D: MemoryDevice>(
    before: RiscCore<C, D>,
    after: RiscCore<C, D>,
)
    requires
        RiscCore::cycle(before, after, None),
        access_of(ExMem::from_bytes(input_of(before, MEM_STAGE as int))).is_some(),
        commits(before.pipeline_control_signals@[MEM_STAGE as int]),
    ensures
        before.dcache.is_some(),
        after.dcache.is_some(),
        device_step(
            before.dcache.unwrap(),
            after.dcache.unwrap(),
            access_of(ExMem::from_bytes(input_of(before, MEM_STAGE as int))).unwrap(),
        ),
        routed_outcome(
            before.dcache,
            before.mmu,
            access_of(ExMem::from_bytes(input_of(before, MEM_STAGE as int))).unwrap(),
        ).is_ok(),
        Ok::<MemWb, StageError>(MemWb::from_bytes(input_of(after, WB_STAGE as int)))
            == access_outcome(
            ExMem::from_bytes(input_of(before, MEM_STAGE as int)),
            routed_outcome(
                before.dcache,
                before.mmu,
                access_of(ExMem::from_bytes(input_of(before, MEM_STAGE as int))).unwrap(),
            ).unwrap(),
        ),
{
    let t = lemma_cycle_has_trace(before, after, None);
    lemma_cycle_signals(t, before, after, None);
    lemma_cycle_front(t, before, after);
    reveal(memory_step);
    let e = ExMem::from_bytes(input_of(before, MEM_STAGE as int));
    let answer = routed_outcome(before.dcache, before.mmu, access_of(e).unwrap());
    assert(answer.is_ok());
    let made = access_outcome(e, answer.unwrap());
    assert(made.is_ok());
    made.unwrap().lemma_round_trip();
}

/// On linear code the program counter advances by exactly four in every
/// cycle in which the fetch stage commits: where the instruction in the
/// memory stage is no taken branch, the counter after the cycle is the
/// counter before it plus four, modulo 2^32.
pub proof fn lemma_linear_code_advances_pc<C: Cache, D: MemoryDevice>(
    before: RiscCore<C, D>,
    after: RiscCore<C, D>,
)
    requires
        RiscCore::cycle(before, after, None),
        !branch_signal(ExMem::from_bytes(input_of(before, MEM_STAGE as int))).taken(),
        commits(before.pipeline_control_signals@[IF_STAGE as int]),
    ensures
        after.program_counter == add32(before.program_counter, 4),
{
    lemma_cycle_program_counter(before, after);
}

/// Whether `after` is the core `before` after `n` cycles without a fault, in
/// none of which the memory stage held a taken branch or jump, and in all of
/// which the fetch stage committed.
pub open spec fn linear_run<C: Cache, D: MemoryDevice>(
    before: RiscCore<C, D>,
    after: RiscCore<C, D>,
    n: nat,
) -> bool
    decreases n,
{
    if n == 0 {
        after == before
    } else {
        exists|mid: RiscCore<C, D>|
            {
                &&& linear_run(before, mid, (n - 1) as nat)
                &&& #[trigger] RiscCore::cycle(mid, after, None)
                &&& !branch_signal(ExMem::from_bytes(input_of(mid, MEM_STAGE as int))).taken()
                &&& commits(mid.pipeline_control_signals@[IF_STAGE as int])
            }
    }
}

/// Over `n` cycles of linear code the program counter advances by four times
/// `n`, modulo 2^32.
pub proof fn lemma_linear_run_advances_pc<C: Cache, D: MemoryDevice>(
    before: RiscCore<C, D>,
    after: RiscCore<C, D>,
    n: nat,
)
    requires
        linear_run(before, after, n),
    ensures
        after.program_counter as int == (before.program_counter + 4 * n) % 0x1_0000_0000,
    decreases n,
{
    if n > 0 {
        let mid = choose|mid: RiscCore<C, D>|
            {
                &&& linear_run(before, mid, (n - 1) as nat)
                &&& #[trigger] RiscCore::cycle(mid, after, None)
                &&& !branch_signal(ExMem::from_bytes(input_of(mid, MEM_STAGE as int))).taken()
                &&& commits(mid.pipeline_control_signals@[IF_STAGE as int])
            };
        lemma_linear_run_advances_pc(before, mid, (n - 1) as nat);
        lemma_linear_code_advances_pc(mid, after);
    }
}

/// Whether what the fetch stage of a core holds is no branch and no jump.
pub open spec fn fetched_no_branch<C: Cache, D: MemoryDevice>(core: RiscCore<C, D>) -> bool {
    branch_or_jump_of(
        opcode_of(IfId::from_bytes(core.stages@[IF_STAGE as int].data_out@).instruction),
    ) == 0
}

/// Whether no branch and no jump is on its way through the pipeline of a
/// core: the fetch, decode and execute stages hold none, and none waits in
/// the registers before decode, execute and the memory stage. A core whose
/// stages and registers hold zeros is such a core.
pub open spec fn holds_no_branch<C: Cache, D: MemoryDevice>(core: RiscCore<C, D>) -> bool {
    &&& fetched_no_branch(core)
    &&& branch_or_jump_of(
        opcode_of(IfId::from_bytes(input_of(core, ID_STAGE as int)).instruction),
    ) == 0
    &&& IdEx::from_bytes(core.stages@[ID_STAGE as int].data_out@).branch_or_jump == 0
    &&& IdEx::from_bytes(input_of(core, EX_STAGE as int)).branch_or_jump == 0
    &&& ExMem::from_bytes(core.stages@[EX_STAGE as int].data_out@).branch_or_jump == 0
    &&& ExMem::from_bytes(input_of(core, MEM_STAGE as int)).branch_or_jump == 0
}

/// A core whose stages are as new has no branch and no jump on its way
/// through the pipeline: the core of the microcontroller as `init_core`
/// makes it is such a core.
pub proof fn lemma_new_core_holds_no_branch<C: Cache, D: MemoryDevice>(core: RiscCore<C, D>)
    requires
        core.stages@.len() == NUM_STAGES,
        forall|i: int| 0 <= i < NUM_STAGES ==> stage_is_fresh(#[trigger] core.stages@[i]),
    ensures
        holds_no_branch(core),
{
    lemma_zero_payload_is_bubble(0);
    lemma_zero_payload_is_bubble(core.stages@[IF_STAGE as int].size_out as nat);
    lemma_zero_payload_is_bubble(core.stages@[ID_STAGE as int].size_out as nat);
    lemma_zero_payload_is_bubble(core.stages@[EX_STAGE as int].size_out as nat);
    assert(zero_bytes(0) =~= Seq::<u8>::empty());
    assert(stage_is_fresh(core.stages@[ID_STAGE as int]));
    assert(stage_is_fresh(core.stages@[EX_STAGE as int]));
    assert(stage_is_fresh(core.stages@[MEM_STAGE as int]));
    assert(input_of(core, ID_STAGE as int) == Seq::<u8>::empty());
    assert(input_of(core, EX_STAGE as int) == Seq::<u8>::empty());
    assert(input_of(core, MEM_STAGE as int) == Seq::<u8>::empty());
}

/// A cycle of linear code: where no branch and no jump is on its way through
/// the pipeline and none is fetched in the cycle, the memory stage resolves
/// no taken branch, the address fetched from is the program counter, and no
/// branch and no jump is on its way afterwards. The control lines may stand
/// as they will.
pub proof fn lemma_cycle_of_linear_code<C: Cache, D: MemoryDevice>(
    before: RiscCore<C, D>,
    after: RiscCore<C, D>,
)
    requires
        RiscCore::cycle(before, after, None),
        holds_no_branch(before),
        fetched_no_branch(after),
    ensures
        holds_no_branch(after),
        !branch_signal(ExMem::from_bytes(input_of(before, MEM_STAGE as int))).taken(),
        fetch_address(
            before.program_counter,
            branch_signal(ExMem::from_bytes(input_of(before, MEM_STAGE as int))),
        ) == before.program_counter,
        after.pipeline_control_signals == before.pipeline_control_signals,
{
    let signal = branch_signal(ExMem::from_bytes(input_of(before, MEM_STAGE as int)));
    signal.lemma_taken_by_flags();
    lemma_cycle_hands_on(before, after);
    lemma_cycle_execute(before, after);
    lemma_cycle_decode(before, after);
    lemma_zero_payload_is_bubble(before.stages@[EX_STAGE as int].size_out as nat);
    lemma_zero_payload_is_bubble(before.stages@[ID_STAGE as int].size_out as nat);
    execute_spec(
        IdEx::from_bytes(input_of(before, EX_STAGE as int)),
        memory_forward(ExMem::from_bytes(input_of(before, MEM_STAGE as int))),
        commit_of(MemWb::from_bytes(input_of(before, WB_STAGE as int))),
    ).lemma_round_trip();
}

/// The program counter on linear code, of every run: where no branch and no
/// jump is on its way through the pipeline at the start, none is fetched in
/// any of the `n` cycles, and the control lines let the fetch stage commit,
/// the run is a linear run, and after it the program counter has advanced by
/// four times `n`, modulo 2^32. The control lines are after the run what
/// they were before it.
pub proof fn lemma_linear_code_runs_straight<C: Cache, D: MemoryDevice>(
    before: RiscCore<C, D>,
    after: RiscCore<C, D>,
    n: nat,
)
    requires
        RiscCore::reaches(before, after, n),
        holds_no_branch(before),
        commits(before.pipeline_control_signals@[IF_STAGE as int]),
        forall|k: nat, s: RiscCore<C, D>|
            k <= n && #[trigger] RiscCore::reaches(before, s, k) ==> fetched_no_branch(s),
    ensures
        linear_run(before, after, n),
        holds_no_branch(after),
        after.pipeline_control_signals == before.pipeline_control_signals,
        after.program_counter as int == (before.program_counter + 4 * n) % 0x1_0000_0000,
    decreases n,
{
    if n > 0 {
        let mid = choose|mid: RiscCore<C, D>|
            RiscCore::reaches(before, mid, (n - 1) as nat) && #[trigger] RiscCore::cycle(
                mid,
                after,
                None,
            );
        lemma_linear_code_runs_straight(before, mid, (n - 1) as nat);
        lemma_cycle_of_linear_code(mid, after);
        assert(linear_run(before, after, n));
    }
    lemma_linear_run_advances_pc(before, after, n);
}

/// The program counter on linear code, of what `run` reports: after a run
/// of linear code that ended without a fault the program counter has
/// advanced by four times the number of cycles that the report gives,
/// modulo 2^32.
pub proof fn lemma_run_of_linear_code<C: Cache, D: MemoryDevice>(
    before: RiscCore<C, D>,
    after: RiscCore<C, D>,
    report: RunReport,
)
    requires
        RiscCore::ran(before, after, report),
        report.fault.is_none(),
        holds_no_branch(before),
        commits(before.pipeline_control_signals@[IF_STAGE as int]),
        forall|k: nat, s: RiscCore<C, D>|
            k <= report.cycles && #[trigger] RiscCore::reaches(before, s, k) ==> fetched_no_branch(
                s,
            ),
    ensures
        after.program_counter as int == (before.program_counter + 4 * report.cycles)
            % 0x1_0000_0000,
{
    lemma_linear_code_runs_straight(before, after, report.cycles as nat);
}

/// A taken branch or jump that is resolved in the memory stage squashes the
/// two instructions behind it: at the end of the cycle the execute stage and
/// the decode stage both hold a bubble, and bubbles are what the memory
/// stage and the execute stage sample in the next cycle. Decode must not be
/// stalled, or it holds what it held.
pub proof fn lemma_taken_branch_squashes<C: Cache, D: MemoryDevice>(
    before: RiscCore<C, D>,
    after: RiscCore<C, D>,
)
    requires
        RiscCore::cycle(before, after, None),
        branch_signal(ExMem::from_bytes(input_of(before, MEM_STAGE as int))).taken(),
        before.pipeline_control_signals@[ID_STAGE as int].enable
            || before.pipeline_control_signals@[ID_STAGE as int].reset,
    ensures
        ExMem::from_bytes(input_of(after, MEM_STAGE as int)) == ExMem::bubble(),
        IdEx::from_bytes(input_of(after, EX_STAGE as int)) == IdEx::bubble(),
        after.program_counter == (if commits(before.pipeline_control_signals@[IF_STAGE as int]) {
            add32(branch_signal(ExMem::from_bytes(input_of(before, MEM_STAGE as int))).pc, 4)
        } else {
            branch_signal(ExMem::from_bytes(input_of(before, MEM_STAGE as int))).pc
        }),
{
    lemma_cycle_program_counter(before, after);
    lemma_cycle_execute(before, after);
    lemma_cycle_decode(before, after);
    lemma_cycle_hands_on(before, after);
    lemma_zero_payload_is_bubble(before.stages@[EX_STAGE as int].size_out as nat);
    lemma_zero_payload_is_bubble(before.stages@[ID_STAGE as int].size_out as nat);
    assert(input_of(after, MEM_STAGE as int) == after.stages@[EX_STAGE as int].data_out@);
    assert(input_of(after, EX_STAGE as int) == after.stages@[ID_STAGE as int].data_out@);
}

/// A bubble has no architectural effect on its way through the pipeline. In
/// execute it asks for no register write, no memory access and no redirect,
/// whatever is forwarded to it; what execute makes of it, and the bubble
/// itself, make no memory request in the memory stage and redirect nothing;
/// and what the memory stage hands on leaves the register file as it is.
pub proof fn lemma_bubble_has_no_effect(mem: Forward, wb: Forward, registers: Seq<RiscWord>)
    ensures
        execute_spec(IdEx::bubble(), mem, wb).reg_write == 0,
        execute_spec(IdEx::bubble(), mem, wb).mem_rw == 0,
        access_of(execute_spec(IdEx::bubble(), mem, wb)).is_none(),
        !branch_signal(execute_spec(IdEx::bubble(), mem, wb)).taken(),
        committed(
            registers,
            commit_of(pass_through(execute_spec(IdEx::bubble(), mem, wb))),
        ) == registers,
        access_of(ExMem::bubble()).is_none(),
        !branch_signal(ExMem::bubble()).taken(),
        committed(registers, commit_of(pass_through(ExMem::bubble()))) == registers,
        committed(registers, commit_of(MemWb::bubble())) == registers,
{
    branch_signal(execute_spec(IdEx::bubble(), mem, wb)).lemma_taken_by_flags();
    branch_signal(ExMem::bubble()).lemma_taken_by_flags();
}

/// The two instructions behind a taken branch or jump change neither the
/// data cache nor the register file. `c0` is the core at the start of the
/// cycle in which the branch is resolved in the memory stage, and `c1` to
/// `c4` are the core one to four cycles later. The instruction that was in
/// execute would have reached the memory stage in the cycle from `c1` to `c2`
/// and writeback in the cycle from `c2` to `c3`; the instruction that was in
/// decode, one cycle later each. In those cycles the data cache and the
/// register file stay as they are. Decode must not be stalled in the cycle of
/// the branch, nor the memory stage in the two cycles after it.
#[verifier::rlimit(40)]
pub proof fn lemma_squashed_instructions_change_nothing<C: Cache, D: MemoryDevice>(
    c0: RiscCore<C, D>,
    c1: RiscCore<C, D>,
    c2: RiscCore<C, D>,
    c3: RiscCore<C, D>,
    c4: RiscCore<C, D>,
)
    requires
        RiscCore::cycle(c0, c1, None),
        RiscCore::cycle(c1, c2, None),
        RiscCore::cycle(c2, c3, None),
        RiscCore::cycle(c3, c4, None),
        branch_signal(ExMem::from_bytes(input_of(c0, MEM_STAGE as int))).taken(),
        c0.pipeline_control_signals@[ID_STAGE as int].enable
            || c0.pipeline_control_signals@[ID_STAGE as int].reset,
        c1.pipeline_control_signals@[MEM_STAGE as int].enable
            || c1.pipeline_control_signals@[MEM_STAGE as int].reset,
        c2.pipeline_control_signals@[MEM_STAGE as int].enable
            || c2.pipeline_control_signals@[MEM_STAGE as int].reset,
    ensures
        c2.dcache == c1.dcache,
        c3.dcache == c2.dcache,
        c3.registers@ == c2.registers@,
        c4.registers@ == c3.registers@,
{
    lemma_taken_branch_squashes(c0, c1);
    let first = ExMem::from_bytes(input_of(c1, MEM_STAGE as int));
    assert(first == ExMem::bubble());
    lemma_cycle_data_cache(c1, c2);
    lemma_cycle_memory(c1, c2);
    lemma_cycle_execute(c1, c2);
    lemma_cycle_hands_on(c1, c2);
    lemma_cycle_execute(c0, c1);
    let second = ExMem::from_bytes(input_of(c2, MEM_STAGE as int));
    let made = execute_spec(
        IdEx::from_bytes(input_of(c1, EX_STAGE as int)),
        memory_forward(first),
        commit_of(MemWb::from_bytes(input_of(c1, WB_STAGE as int))),
    );
    made.lemma_round_trip();
    lemma_zero_payload_is_bubble(c1.stages@[EX_STAGE as int].size_out as nat);
    lemma_zero_payload_is_bubble(c0.stages@[EX_STAGE as int].size_out as nat);
    assert(second.mem_rw == 0 && second.reg_write == 0);
    lemma_cycle_registers(c2, c3);
    lemma_cycle_data_cache(c2, c3);
    lemma_cycle_memory(c2, c3);
    lemma_cycle_registers(c3, c4);
}

/// A cycle changes the data cache only for a load or a store in the memory
/// stage, and the register file only by the commit of the instruction in
/// writeback: with neither, both are after the cycle what they were before.
pub proof fn lemma_cycle_without_access_or_commit<C: Cache, D: MemoryDevice>(
    before: RiscCore<C, D>,
    after: RiscCore<C, D>,
)
    requires
        RiscCore::cycle(before, after, None),
    ensures
        access_of(ExMem::from_bytes(input_of(before, MEM_STAGE as int))).is_none()
            ==> after.dcache == before.dcache,
        MemWb::from_bytes(input_of(before, WB_STAGE as int)).reg_write != 1 ==> after.registers@
            == before.registers@,
{
    lemma_cycle_registers(before, after);
    if access_of(ExMem::from_bytes(input_of(before, MEM_STAGE as int))).is_none() {
        lemma_cycle_data_cache(before, after);
    }
}

/// The operand that execute works on is the result of the instruction right
/// ahead, where that instruction writes the register that the operand is read
/// from: the pair needs no stall. The register must not be register zero,
/// whose value no instruction changes.
pub proof fn lemma_forwarding_from_memory(
    first: IdEx,
    mem: Forward,
    wb: Forward,
    second: IdEx,
    later: Forward,
)
    requires
        first.reg_write == 1,
        0 < first.rd < NUM_REGISTERS,
    ensures
        second.rs1_idx == first.rd ==> forwarded(
            second.rs1,
            second.rs1_idx,
            memory_forward(execute_spec(first, mem, wb)),
            later,
        ) == execute_spec(first, mem, wb).alu_out,
        second.rs2_idx == first.rd ==> forwarded(
            second.rs2,
            second.rs2_idx,
            memory_forward(execute_spec(first, mem, wb)),
            later,
        ) == execute_spec(first, mem, wb).alu_out,
        committed(
            Seq::new(NUM_REGISTERS as nat, |i: int| 0u32),
            commit_of(pass_through(execute_spec(first, mem, wb))),
        )[first.rd as int] == execute_spec(first, mem, wb).alu_out,
{
}

/// In a cycle in which the memory stage holds no taken branch and execute
/// commits, execute puts out what `execute_spec` gives for the instruction
/// it sampled, with the result of the instruction in the memory stage and
/// the commit of the instruction in writeback forwarded to it.
pub proof fn lemma_cycle_forwards_to_execute<C: Cache, D: MemoryDevice>(
    before: RiscCore<C, D>,
    after: RiscCore<C, D>,
)
    requires
        RiscCore::cycle(before, after, None),
        !branch_signal(ExMem::from_bytes(input_of(before, MEM_STAGE as int))).taken(),
        before.pipeline_control_signals@.len() > EX_STAGE ==> commits(
            before.pipeline_control_signals@[EX_STAGE as int],
        ),
    ensures
        ExMem::from_bytes(input_of(after, MEM_STAGE as int)) == execute_spec(
            IdEx::from_bytes(input_of(before, EX_STAGE as int)),
            memory_forward(ExMem::from_bytes(input_of(before, MEM_STAGE as int))),
            commit_of(MemWb::from_bytes(input_of(before, WB_STAGE as int))),
        ),
{
    lemma_cycle_execute(before, after);
    lemma_cycle_hands_on(before, after);
    execute_spec(
        IdEx::from_bytes(input_of(before, EX_STAGE as int)),
        memory_forward(ExMem::from_bytes(input_of(before, MEM_STAGE as int))),
        commit_of(MemWb::from_bytes(input_of(before, WB_STAGE as int))),
    ).lemma_round_trip();
    assert(input_of(after, MEM_STAGE as int) == after.stages@[EX_STAGE as int].data_out@);
}

} // verus!
