//! The two instructions behind a taken branch or jump leave no trace: a run
//! goes on as the run of a core that held bubbles in their place.

use crate::dataflow::{
    all_commit, flow_of, lemma_cycle_steps_flow, next_answer, next_word, stepped, Flow,
};
use crate::fetch::fetch_request;
use crate::laws::next_fetch;
use crate::mcu_cache::{lemma_geometry_kept, MCUCache};
use crate::memory::{access_of, branch_signal};
use crate::memory_management_unit::{MemoryDevice, MemoryResponseType, MemoryResponseView};
use crate::payload::{IdEx, IfId};
use crate::risc_soc::RiscCore;
use crate::risc_word::RiscWord;
use vstd::prelude::*;

verus! {

/// What a pipeline holds when the instructions before decode and before
/// execute are replaced by bubbles.
pub open spec fn with_bubbles(v: Flow) -> Flow {
    Flow { to_decode: IfId::bubble(), to_execute: IdEx::bubble(), ..v }
}

/// A taken branch or jump in the memory stage squashes the two instructions
/// behind it: the step of the pipeline gives what it gives where bubbles
/// stand in their place, whatever they are.
pub proof fn lemma_squash_is_bubbles(v: Flow, word: RiscWord, answer: MemoryResponseView)
    requires
        branch_signal(v.to_memory).taken(),
    ensures
        stepped(v, word, answer) == stepped(with_bubbles(v), word, answer),
{
}

/// Whether two direct memories are of the same geometry and hold the same
/// bytes, or are both absent.
pub open spec fn same_memory(a: Option<MCUCache>, b: Option<MCUCache>) -> bool {
    match (a, b) {
        (Some(x), Some(y)) => x.well_formed() && y.well_formed() && x.same_geometry(&y) && x.data@
            == y.data@,
        (None, None) => true,
        _ => false,
    }
}

/// Whether the next cycle of a core is served by its two direct memories
/// alone: the fetch hits the instruction memory, and the load or store in
/// the memory stage, if there is one, hits the data memory.
pub open spec fn served_by_caches<D: MemoryDevice>(core: RiscCore<MCUCache, D>) -> bool {
    &&& core.icache.is_some()
    &&& core.icache.unwrap().response(fetch_request(next_fetch(core))).status
        == MemoryResponseType::CacheHit
    &&& match access_of(flow_of(core).to_memory) {
        None => true,
        Some(request) => core.dcache.is_some() && core.dcache.unwrap().response(request).status
            == MemoryResponseType::CacheHit,
    }
}

/// Whether two cores go on alike: their control lines let every stage
/// commit, their memories are the same, and their pipelines hold the same,
/// or the second holds bubbles behind a taken branch or jump in the memory
/// stage where the first holds two instructions.
pub open spec fn alike<D: MemoryDevice>(a: RiscCore<MCUCache, D>, b: RiscCore<MCUCache, D>) -> bool {
    &&& all_commit(a)
    &&& all_commit(b)
    &&& same_memory(a.icache, b.icache)
    &&& same_memory(a.dcache, b.dcache)
    &&& (flow_of(b) == flow_of(a) || (branch_signal(flow_of(a).to_memory).taken() && flow_of(b)
        == with_bubbles(flow_of(a))))
}

/// A cycle of two cores that go on alike, served by their direct memories
/// alone: afterwards their pipelines hold the same, register file and
/// program counter included, and their memories are the same.
pub proof fn lemma_cycle_alike<D: MemoryDevice>(
    a: RiscCore<MCUCache, D>,
    a_next: RiscCore<MCUCache, D>,
    b: RiscCore<MCUCache, D>,
    b_next: RiscCore<MCUCache, D>,
)
    requires
        RiscCore::cycle(a, a_next, None),
        RiscCore::cycle(b, b_next, None),
        alike(a, b),
        served_by_caches(a),
    ensures
        flow_of(a_next) == flow_of(b_next),
        alike(a_next, b_next),
        served_by_caches(b),
{
    let va = flow_of(a);
    let vb = flow_of(b);
    assert(next_fetch(b) == next_fetch(a));
    a.icache.unwrap().lemma_as_device();
    b.icache.unwrap().lemma_as_device();
    assert(b.icache.unwrap().response(fetch_request(next_fetch(b)))
        == a.icache.unwrap().response(fetch_request(next_fetch(a))));
    if a.dcache.is_some() {
        a.dcache.unwrap().lemma_as_device();
        b.dcache.unwrap().lemma_as_device();
    }
    assert(next_answer(b) == next_answer(a));
    lemma_cycle_steps_flow(a, a_next);
    lemma_cycle_steps_flow(b, b_next);
    if vb != va {
        lemma_squash_is_bubbles(va, next_word(a), next_answer(a));
    }
    lemma_geometry_kept(a.icache.unwrap(), a_next.icache.unwrap());
    lemma_geometry_kept(b.icache.unwrap(), b_next.icache.unwrap());
    a_next.icache.unwrap().lemma_as_device();
    b_next.icache.unwrap().lemma_as_device();
    if access_of(va.to_memory).is_some() {
        lemma_geometry_kept(a.dcache.unwrap(), a_next.dcache.unwrap());
        lemma_geometry_kept(b.dcache.unwrap(), b_next.dcache.unwrap());
        a_next.dcache.unwrap().lemma_as_device();
        b_next.dcache.unwrap().lemma_as_device();
    }
}

/// Whether every cycle of the first `n` from a core on is served by its two
/// direct memories alone.
pub open spec fn run_served_by_caches<D: MemoryDevice>(core: RiscCore<MCUCache, D>, n: nat) -> bool {
    forall|k: nat, s: RiscCore<MCUCache, D>|
        k < n && #[trigger] RiscCore::reaches(core, s, k) ==> served_by_caches(s)
}

/// The two instructions behind a taken branch or jump have no effect on a
/// run. Of two cores that differ only in this, that the second holds bubbles
/// where the first holds the two instructions behind a taken branch or jump
/// in the memory stage, runs of the same length, of at least one cycle and
/// without a fault, end with the same registers, the same program counter,
/// the same instructions on their way, and the same bytes in both memories:
/// the two instructions write no register and no byte of memory. Every
/// stage commits, and the run of the first core is served by its direct
/// memories alone.
pub proof fn lemma_squashed_pair_leaves_no_trace<D: MemoryDevice>(
    a: RiscCore<MCUCache, D>,
    a_end: RiscCore<MCUCache, D>,
    b: RiscCore<MCUCache, D>,
    b_end: RiscCore<MCUCache, D>,
    n: nat,
)
    requires
        n >= 1,
        RiscCore::reaches(a, a_end, n),
        RiscCore::reaches(b, b_end, n),
        alike(a, b),
        run_served_by_caches(a, n),
    ensures
        flow_of(a_end) == flow_of(b_end),
        a_end.registers@ == b_end.registers@,
        a_end.program_counter == b_end.program_counter,
        same_memory(a_end.icache, b_end.icache),
        same_memory(a_end.dcache, b_end.dcache),
        alike(a_end, b_end),
    decreases n,
{
    let a_mid = choose|mid: RiscCore<MCUCache, D>|
        RiscCore::reaches(a, mid, (n - 1) as nat) && #[trigger] RiscCore::cycle(mid, a_end, None);
    let b_mid = choose|mid: RiscCore<MCUCache, D>|
        RiscCore::reaches(b, mid, (n - 1) as nat) && #[trigger] RiscCore::cycle(mid, b_end, None);
    if n > 1 {
        assert(run_served_by_caches(a, (n - 1) as nat));
        lemma_squashed_pair_leaves_no_trace(a, a_mid, b, b_mid, (n - 1) as nat);
    }
    assert(served_by_caches(a_mid));
    lemma_cycle_alike(a_mid, a_end, b_mid, b_end);
}

} // verus!
