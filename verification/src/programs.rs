//! Programs in the instruction memory of the microcontroller, followed
//! through the pipeline cycle by cycle.

use crate::cache::Cache;
use crate::clock::{input_of, RunReport};
use crate::dataflow::{
    all_commit, flow_of, lemma_cycle_steps_flow, next_answer, next_word, stepped, Flow,
};
use crate::device::Device;
use crate::fetch::{fetch_address, fetch_request};
use crate::laws::{lemma_cycle_registers, lemma_cycle_unit, next_fetch};
use crate::mcu_cache::{
    lemma_aligned_word_within_line, lemma_geometry_kept, lemma_word_write_then_read, MCUCache,
};
use crate::mcu_core::{
    stage_is_fresh, DCACHE_BASE, EX_STAGE, ID_STAGE, MEM_STAGE, NUM_STAGES, UART_BASE, UART_END,
    WB_STAGE,
};
use crate::memory::{access_of, branch_signal};
use crate::memory_management_unit::{
    device_step, gathered_output, is_first_match, MemoryDevice, MemoryRequestView,
    MemoryResponseType, MemoryResponseView,
};
use crate::payload::{lemma_zero_payload_is_bubble, ExMem, IdEx, IfId, MemWb};
use crate::risc_soc::{
    committed, PipelineControlSignals, RiscCore, NUM_REGISTERS, RESET_VECTOR,
};
use crate::risc_word::{
    le_u32, lemma_word_bytes_round_trip, word_bytes, zero_bytes, RiscWord, WordSize,
};
use crate::uart::UART_TX_OFFSET;
use crate::writeback::commit_of;
use vstd::prelude::*;

verus! {

/// Number of words from the reset vector on that the instruction memory of a
/// core must at least cover for `holds_program`.
pub const PROGRAM_ROOM: usize = 64;

/// Whether a core fetches from a direct memory that begins at the reset
/// vector, is made of lines of whole words, covers at least `PROGRAM_ROOM`
/// words, and holds `words` from its first address on. What lies behind
/// `words` is left open.
pub open spec fn holds_program<D: MemoryDevice>(
    core: RiscCore<MCUCache, D>,
    words: Seq<RiscWord>,
) -> bool {
    &&& core.icache.is_some()
    &&& core.icache.unwrap().well_formed()
    &&& core.icache.unwrap().line_size % 4 == 0
    &&& core.icache.unwrap().start_address == RESET_VECTOR
    &&& core.icache.unwrap().end_address >= RESET_VECTOR + 4 * PROGRAM_ROOM
    &&& words.len() <= PROGRAM_ROOM
    &&& forall|i: int|
        0 <= i < words.len() ==> le_u32(core.icache.unwrap().data@, 4 * i) == #[trigger] words[i]
}

/// What the pipeline of a core holds when it starts a program: the program
/// counter at the reset vector, registers that are all zero, and bubbles.
pub open spec fn starts(v: Flow) -> bool {
    &&& v.pc == RESET_VECTOR
    &&& v.registers.len() == NUM_REGISTERS
    &&& forall|i: int| 0 <= i < NUM_REGISTERS ==> v.registers[i] == 0
    &&& v.to_decode == IfId::bubble()
    &&& v.to_execute == IdEx::bubble()
    &&& v.to_memory == ExMem::bubble()
    &&& v.to_writeback == MemWb::bubble()
}

/// A core whose stages are as new, with the program counter at the reset
/// vector and registers that are all zero, starts a program; with control
/// lines as `init_core` leaves them, every stage commits.
pub proof fn lemma_new_core_starts<C: Cache, D: MemoryDevice>(core: RiscCore<C, D>)
    requires
        core.stages@.len() == NUM_STAGES,
        forall|i: int| 0 <= i < NUM_STAGES ==> stage_is_fresh(#[trigger] core.stages@[i]),
        core.program_counter == RESET_VECTOR,
        core.registers@.len() == NUM_REGISTERS,
        forall|i: int| 0 <= i < NUM_REGISTERS ==> core.registers@[i] == 0,
        core.pipeline_control_signals@.len() >= NUM_STAGES,
        forall|i: int|
            0 <= i < NUM_STAGES ==> core.pipeline_control_signals@[i] == (PipelineControlSignals {
                reset: false,
                enable: true,
            }),
    ensures
        starts(flow_of(core)),
        all_commit(core),
{
    lemma_zero_payload_is_bubble(0);
    assert(zero_bytes(0) =~= Seq::<u8>::empty());
    assert(stage_is_fresh(core.stages@[ID_STAGE as int]));
    assert(stage_is_fresh(core.stages@[EX_STAGE as int]));
    assert(stage_is_fresh(core.stages@[MEM_STAGE as int]));
    assert(stage_is_fresh(core.stages@[WB_STAGE as int]));
    assert(input_of(core, ID_STAGE as int) == Seq::<u8>::empty());
    assert(input_of(core, EX_STAGE as int) == Seq::<u8>::empty());
    assert(input_of(core, MEM_STAGE as int) == Seq::<u8>::empty());
    assert(input_of(core, WB_STAGE as int) == Seq::<u8>::empty());
}

/// Whether a core is about to run the program `words` from its beginning:
/// it holds the program, its program counter is at the reset vector, all
/// its registers are zero, its pipeline holds bubbles only, and its control
/// lines let every stage commit.
pub open spec fn starts_program<D: MemoryDevice>(
    core: RiscCore<MCUCache, D>,
    words: Seq<RiscWord>,
) -> bool {
    &&& holds_program(core, words)
    &&& all_commit(core)
    &&& starts(flow_of(core))
}

/// A fetch of the word at place `i` of the instruction memory hits, and
/// gives the word of the program at that place if the program reaches so
/// far.
pub proof fn lemma_fetch_hits<D: MemoryDevice>(
    core: RiscCore<MCUCache, D>,
    words: Seq<RiscWord>,
    i: int,
)
    requires
        holds_program(core, words),
        0 <= i < PROGRAM_ROOM,
        next_fetch(core) == RESET_VECTOR + 4 * i,
    ensures
        core.icache.unwrap().response(fetch_request(next_fetch(core))).status
            == MemoryResponseType::CacheHit,
        i < words.len() ==> next_word(core) == words[i],
{
    let memory = core.icache.unwrap();
    let address = next_fetch(core) as u64;
    lemma_aligned_word_within_line(memory, address);
    let data = memory.response(fetch_request(next_fetch(core))).data;
    assert(data =~= memory.data@.subrange(4 * i, 4 * i + 4));
}

/// A cycle of a core that holds a program and lets every stage commit, in
/// which the word at place `i` of the instruction memory is fetched: what
/// the pipeline holds goes on as `stepped` says, with the word of the
/// program at that place, and the core holds the program afterwards. The
/// data cache has served the load or store of the cycle, and so has the
/// unit behind it unless the cache hit; without a load or store both are as
/// they were. The
/// data cache has served the load or store of the cycle, or is as it was.
#[verifier::spinoff_prover]
#[verifier::rlimit(100)]
pub proof fn lemma_program_cycle<D: MemoryDevice>(
    before: RiscCore<MCUCache, D>,
    after: RiscCore<MCUCache, D>,
    words: Seq<RiscWord>,
    i: int,
)
    requires
        RiscCore::cycle(before, after, None),
        all_commit(before),
        holds_program(before, words),
        0 <= i < PROGRAM_ROOM,
        next_fetch(before) == RESET_VECTOR + 4 * i,
    ensures
        flow_of(after) == stepped(flow_of(before), next_word(before), next_answer(before)),
        i < words.len() ==> next_word(before) == words[i],
        all_commit(after),
        holds_program(after, words),
        match access_of(flow_of(before).to_memory) {
            None => after.dcache == before.dcache && after.mmu == before.mmu,
            Some(request) => {
                &&& before.dcache.is_some()
                &&& after.dcache.is_some()
                &&& device_step(before.dcache.unwrap(), after.dcache.unwrap(), request)
                &&& if before.dcache.unwrap().response(request).status
                    == MemoryResponseType::CacheHit {
                    after.mmu == before.mmu
                } else {
                    before.mmu.served(&after.mmu, request)
                }
            },
        },
{
    lemma_fetch_hits(before, words, i);
    lemma_cycle_unit(before, after);
    lemma_cycle_steps_flow(before, after);
    lemma_geometry_kept(before.icache.unwrap(), after.icache.unwrap());
}

/// The last cycle of a run of at least one cycle.
pub proof fn lemma_last_cycle<D: MemoryDevice>(
    before: RiscCore<MCUCache, D>,
    after: RiscCore<MCUCache, D>,
    n: nat,
) -> (mid: RiscCore<MCUCache, D>)
    requires
        RiscCore::reaches(before, after, n),
        n > 0,
    ensures
        RiscCore::reaches(before, mid, (n - 1) as nat),
        RiscCore::cycle(mid, after, None),
        n == 1 ==> mid == before,
{
    let mid = choose|mid: RiscCore<MCUCache, D>|
        RiscCore::reaches(before, mid, (n - 1) as nat) && #[trigger] RiscCore::cycle(
            mid,
            after,
            None,
        );
    mid
}

/// The program `addi x1,x0,3; addi x2,x0,4; add x3,x1,x2`.
pub open spec fn add_chain() -> Seq<RiscWord> {
    seq![0x0030_0093u32, 0x0040_0113u32, 0x0020_81b3u32]
}

/// The program `add_chain` in the pipeline: six steps from the start, with
/// any words behind the program and any answers from the data side, fetch
/// one word after the other with no redirect and no load or store, and
/// leave the first two results in the register file and the third in
/// writeback.
#[verifier::spinoff_prover]
#[verifier::rlimit(100)]
pub proof fn lemma_add_chain_flow(v0: Flow, w: Seq<RiscWord>, a: Seq<MemoryResponseView>) -> (v:
    Seq<Flow>)
    requires
        starts(v0),
        w.len() == 6,
        a.len() == 6,
        w[0] == 0x0030_0093u32,
        w[1] == 0x0040_0113u32,
        w[2] == 0x0020_81b3u32,
    ensures
        v.len() == 7,
        v[0] == v0,
        forall|k: int| 0 <= k < 6 ==> #[trigger] v[k + 1] == stepped(v[k], w[k], a[k]),
        fetch_address(v[0].pc, branch_signal(v[0].to_memory)) == RESET_VECTOR,
        fetch_address(v[1].pc, branch_signal(v[1].to_memory)) == RESET_VECTOR + 4,
        fetch_address(v[2].pc, branch_signal(v[2].to_memory)) == RESET_VECTOR + 8,
        fetch_address(v[3].pc, branch_signal(v[3].to_memory)) == RESET_VECTOR + 12,
        fetch_address(v[4].pc, branch_signal(v[4].to_memory)) == RESET_VECTOR + 16,
        fetch_address(v[5].pc, branch_signal(v[5].to_memory)) == RESET_VECTOR + 20,
        forall|k: int| 0 <= k < 6 ==> access_of((#[trigger] v[k]).to_memory).is_none(),
        committed(v[6].registers, commit_of(v[6].to_writeback))[0] == 0,
        committed(v[6].registers, commit_of(v[6].to_writeback))[1] == 3,
        committed(v[6].registers, commit_of(v[6].to_writeback))[2] == 4,
        committed(v[6].registers, commit_of(v[6].to_writeback))[3] == 7,
{
    let v1 = stepped(v0, w[0], a[0]);
    let v2 = stepped(v1, w[1], a[1]);
    let v3 = stepped(v2, w[2], a[2]);
    let v4 = stepped(v3, w[3], a[3]);
    let v5 = stepped(v4, w[4], a[4]);
    let v6 = stepped(v5, w[5], a[5]);
    branch_signal(v0.to_memory).lemma_taken_by_flags();
    branch_signal(v1.to_memory).lemma_taken_by_flags();
    branch_signal(v2.to_memory).lemma_taken_by_flags();
    branch_signal(v3.to_memory).lemma_taken_by_flags();
    branch_signal(v4.to_memory).lemma_taken_by_flags();
    branch_signal(v5.to_memory).lemma_taken_by_flags();
    seq![v0, v1, v2, v3, v4, v5, v6]
}

/// Seven cycles without a fault from the start of the program `add_chain`
/// retire its three instructions: registers one, two and three hold 3, 4 and
/// 7, and register zero holds zero. The sum is computed from operands that
/// are forwarded: neither was in the register file when the addition was
/// decoded. What lies behind the program in the instruction memory does not
/// matter.
#[verifier::spinoff_prover]
#[verifier::rlimit(100)]
pub proof fn lemma_add_chain<D: MemoryDevice>(
    before: RiscCore<MCUCache, D>,
    after: RiscCore<MCUCache, D>,
)
    requires
        RiscCore::ran(before, after, (RunReport { cycles: 7, fault: None })),
        starts_program(before, add_chain()),
    ensures
        after.registers@[0] == 0,
        after.registers@[1] == 3,
        after.registers@[2] == 4,
        after.registers@[3] == 7,
{
    let words = add_chain();
    let c6 = lemma_last_cycle(before, after, 7);
    let c5 = lemma_last_cycle(before, c6, 6);
    let c4 = lemma_last_cycle(before, c5, 5);
    let c3 = lemma_last_cycle(before, c4, 4);
    let c2 = lemma_last_cycle(before, c3, 3);
    let c1 = lemma_last_cycle(before, c2, 2);
    let c0 = lemma_last_cycle(before, c1, 1);
    let w = seq![
        words[0],
        words[1],
        words[2],
        next_word(c3),
        next_word(c4),
        next_word(c5),
    ];
    let a = seq![
        next_answer(c0),
        next_answer(c1),
        next_answer(c2),
        next_answer(c3),
        next_answer(c4),
        next_answer(c5),
    ];
    let v = lemma_add_chain_flow(flow_of(c0), w, a);
    lemma_program_cycle(c0, c1, words, 0);
    assert(flow_of(c1) == v[0int + 1]);
    lemma_program_cycle(c1, c2, words, 1);
    assert(flow_of(c2) == v[1int + 1]);
    lemma_program_cycle(c2, c3, words, 2);
    assert(flow_of(c3) == v[2int + 1]);
    lemma_program_cycle(c3, c4, words, 3);
    assert(flow_of(c4) == v[3int + 1]);
    lemma_program_cycle(c4, c5, words, 4);
    assert(flow_of(c5) == v[4int + 1]);
    lemma_program_cycle(c5, c6, words, 5);
    assert(flow_of(c6) == v[5int + 1]);
    lemma_cycle_registers(c6, after);
}

/// The program `addi x1,x0,1; addi x2,x0,1; beq x1,x2,+8; addi x3,x0,-339;
/// addi x4,x0,1; addi x5,x0,1`: the branch, at offset 8, is taken to the
/// instruction at offset 16, which writes register four.
pub open spec fn branch_over() -> Seq<RiscWord> {
    seq![0x0010_0093u32, 0x0010_0113u32, 0x0020_8463u32, 0xead0_0193u32, 0x0010_0213u32, 0x0010_0293u32]
}

/// The program `branch_over` in the pipeline: the branch is resolved in the
/// sixth step, which fetches from its target; the two instructions fetched
/// behind the branch become bubbles, and the instructions from the target on
/// go through.
#[verifier::spinoff_prover]
#[verifier::rlimit(100)]
pub proof fn lemma_branch_over_flow(v0: Flow, w: Seq<RiscWord>, a: Seq<MemoryResponseView>) -> (v:
    Seq<Flow>)
    requires
        starts(v0),
        w.len() == 10,
        a.len() == 10,
        w[0] == 0x0010_0093u32,
        w[1] == 0x0010_0113u32,
        w[2] == 0x0020_8463u32,
        w[3] == 0xead0_0193u32,
        w[4] == 0x0010_0213u32,
        w[5] == 0x0010_0213u32,
        w[6] == 0x0010_0293u32,
    ensures
        v.len() == 11,
        v[0] == v0,
        forall|k: int| 0 <= k < 10 ==> #[trigger] v[k + 1] == stepped(v[k], w[k], a[k]),
        fetch_address(v[0].pc, branch_signal(v[0].to_memory)) == RESET_VECTOR,
        fetch_address(v[1].pc, branch_signal(v[1].to_memory)) == RESET_VECTOR + 4,
        fetch_address(v[2].pc, branch_signal(v[2].to_memory)) == RESET_VECTOR + 8,
        fetch_address(v[3].pc, branch_signal(v[3].to_memory)) == RESET_VECTOR + 12,
        fetch_address(v[4].pc, branch_signal(v[4].to_memory)) == RESET_VECTOR + 16,
        fetch_address(v[5].pc, branch_signal(v[5].to_memory)) == RESET_VECTOR + 16,
        fetch_address(v[6].pc, branch_signal(v[6].to_memory)) == RESET_VECTOR + 20,
        fetch_address(v[7].pc, branch_signal(v[7].to_memory)) == RESET_VECTOR + 24,
        fetch_address(v[8].pc, branch_signal(v[8].to_memory)) == RESET_VECTOR + 28,
        fetch_address(v[9].pc, branch_signal(v[9].to_memory)) == RESET_VECTOR + 32,
        forall|k: int| 0 <= k < 10 ==> access_of((#[trigger] v[k]).to_memory).is_none(),
        committed(v[10].registers, commit_of(v[10].to_writeback))[0] == 0,
        committed(v[10].registers, commit_of(v[10].to_writeback))[1] == 1,
        committed(v[10].registers, commit_of(v[10].to_writeback))[2] == 1,
        committed(v[10].registers, commit_of(v[10].to_writeback))[3] == 0,
        committed(v[10].registers, commit_of(v[10].to_writeback))[4] == 1,
        committed(v[10].registers, commit_of(v[10].to_writeback))[5] == 1,
{
    let v1 = stepped(v0, w[0], a[0]);
    let v2 = stepped(v1, w[1], a[1]);
    let v3 = stepped(v2, w[2], a[2]);
    let v4 = stepped(v3, w[3], a[3]);
    let v5 = stepped(v4, w[4], a[4]);
    let v6 = stepped(v5, w[5], a[5]);
    let v7 = stepped(v6, w[6], a[6]);
    let v8 = stepped(v7, w[7], a[7]);
    let v9 = stepped(v8, w[8], a[8]);
    let v10 = stepped(v9, w[9], a[9]);
    branch_signal(v0.to_memory).lemma_taken_by_flags();
    branch_signal(v1.to_memory).lemma_taken_by_flags();
    branch_signal(v2.to_memory).lemma_taken_by_flags();
    branch_signal(v3.to_memory).lemma_taken_by_flags();
    branch_signal(v4.to_memory).lemma_taken_by_flags();
    branch_signal(v5.to_memory).lemma_taken_by_flags();
    branch_signal(v6.to_memory).lemma_taken_by_flags();
    branch_signal(v7.to_memory).lemma_taken_by_flags();
    branch_signal(v8.to_memory).lemma_taken_by_flags();
    branch_signal(v9.to_memory).lemma_taken_by_flags();
    seq![v0, v1, v2, v3, v4, v5, v6, v7, v8, v9, v10]
}

/// Eleven cycles without a fault from the start of the program
/// `branch_over` retire its last instruction: the branch is taken, the
/// instruction it jumps over is squashed and leaves register three at zero,
/// and the instructions from the target on write registers four and five.
/// What lies behind the program in the instruction memory does not matter.
#[verifier::spinoff_prover]
#[verifier::rlimit(100)]
pub proof fn lemma_branch_over<D: MemoryDevice>(
    before: RiscCore<MCUCache, D>,
    after: RiscCore<MCUCache, D>,
)
    requires
        RiscCore::ran(before, after, (RunReport { cycles: 11, fault: None })),
        starts_program(before, branch_over()),
    ensures
        after.registers@[0] == 0,
        after.registers@[1] == 1,
        after.registers@[2] == 1,
        after.registers@[3] == 0,
        after.registers@[4] == 1,
        after.registers@[5] == 1,
{
    let words = branch_over();
    let c10 = lemma_last_cycle(before, after, 11);
    let c9 = lemma_last_cycle(before, c10, 10);
    let c8 = lemma_last_cycle(before, c9, 9);
    let c7 = lemma_last_cycle(before, c8, 8);
    let c6 = lemma_last_cycle(before, c7, 7);
    let c5 = lemma_last_cycle(before, c6, 6);
    let c4 = lemma_last_cycle(before, c5, 5);
    let c3 = lemma_last_cycle(before, c4, 4);
    let c2 = lemma_last_cycle(before, c3, 3);
    let c1 = lemma_last_cycle(before, c2, 2);
    let c0 = lemma_last_cycle(before, c1, 1);
    let w = seq![
        words[0],
        words[1],
        words[2],
        words[3],
        words[4],
        words[4],
        words[5],
        next_word(c7),
        next_word(c8),
        next_word(c9),
    ];
    let a = seq![
        next_answer(c0),
        next_answer(c1),
        next_answer(c2),
        next_answer(c3),
        next_answer(c4),
        next_answer(c5),
        next_answer(c6),
        next_answer(c7),
        next_answer(c8),
        next_answer(c9),
    ];
    let v = lemma_branch_over_flow(flow_of(c0), w, a);
    lemma_program_cycle(c0, c1, words, 0);
    assert(flow_of(c1) == v[0int + 1]);
    lemma_program_cycle(c1, c2, words, 1);
    assert(flow_of(c2) == v[1int + 1]);
    lemma_program_cycle(c2, c3, words, 2);
    assert(flow_of(c3) == v[2int + 1]);
    lemma_program_cycle(c3, c4, words, 3);
    assert(flow_of(c4) == v[3int + 1]);
    lemma_program_cycle(c4, c5, words, 4);
    assert(flow_of(c5) == v[4int + 1]);
    lemma_program_cycle(c5, c6, words, 4);
    assert(flow_of(c6) == v[5int + 1]);
    lemma_program_cycle(c6, c7, words, 5);
    assert(flow_of(c7) == v[6int + 1]);
    lemma_program_cycle(c7, c8, words, 6);
    assert(flow_of(c8) == v[7int + 1]);
    lemma_program_cycle(c8, c9, words, 7);
    assert(flow_of(c9) == v[8int + 1]);
    lemma_program_cycle(c9, c10, words, 8);
    assert(flow_of(c10) == v[9int + 1]);
    lemma_cycle_registers(c10, after);
}

/// The program `jal x1,+8; addi x2,x0,0x2ad; addi x3,x0,7; jalr x0,0(x1)`:
/// the jump, at offset 0, goes to the instruction at offset 8 and links to
/// offset 4, to which the last instruction returns.
pub open spec fn jump_and_return() -> Seq<RiscWord> {
    seq![0x0080_00efu32, 0x2ad0_0113u32, 0x0070_0193u32, 0x0000_8067u32]
}

/// The program `jump_and_return` in the pipeline: the jump is resolved in
/// the fourth step, which fetches from its target, and the return in the
/// eighth, which fetches from the address after the jump.
#[verifier::spinoff_prover]
#[verifier::rlimit(100)]
pub proof fn lemma_jump_and_return_flow(v0: Flow, w: Seq<RiscWord>, a: Seq<MemoryResponseView>) -> (v:
    Seq<Flow>)
    requires
        starts(v0),
        w.len() == 8,
        a.len() == 8,
        w[0] == 0x0080_00efu32,
        w[1] == 0x2ad0_0113u32,
        w[2] == 0x0070_0193u32,
        w[3] == 0x0070_0193u32,
        w[4] == 0x0000_8067u32,
        w[7] == 0x2ad0_0113u32,
    ensures
        v.len() == 9,
        v[0] == v0,
        forall|k: int| 0 <= k < 8 ==> #[trigger] v[k + 1] == stepped(v[k], w[k], a[k]),
        fetch_address(v[0].pc, branch_signal(v[0].to_memory)) == RESET_VECTOR,
        fetch_address(v[1].pc, branch_signal(v[1].to_memory)) == RESET_VECTOR + 4,
        fetch_address(v[2].pc, branch_signal(v[2].to_memory)) == RESET_VECTOR + 8,
        fetch_address(v[3].pc, branch_signal(v[3].to_memory)) == RESET_VECTOR + 8,
        fetch_address(v[4].pc, branch_signal(v[4].to_memory)) == RESET_VECTOR + 12,
        fetch_address(v[5].pc, branch_signal(v[5].to_memory)) == RESET_VECTOR + 16,
        fetch_address(v[6].pc, branch_signal(v[6].to_memory)) == RESET_VECTOR + 20,
        fetch_address(v[7].pc, branch_signal(v[7].to_memory)) == RESET_VECTOR + 4,
        forall|k: int| 0 <= k < 8 ==> access_of((#[trigger] v[k]).to_memory).is_none(),
        committed(v[8].registers, commit_of(v[8].to_writeback))[0] == 0,
        committed(v[8].registers, commit_of(v[8].to_writeback))[1] == 0x8000_0004,
        committed(v[8].registers, commit_of(v[8].to_writeback))[2] == 0,
        committed(v[8].registers, commit_of(v[8].to_writeback))[3] == 7,
{
    let v1 = stepped(v0, w[0], a[0]);
    let v2 = stepped(v1, w[1], a[1]);
    let v3 = stepped(v2, w[2], a[2]);
    let v4 = stepped(v3, w[3], a[3]);
    let v5 = stepped(v4, w[4], a[4]);
    let v6 = stepped(v5, w[5], a[5]);
    let v7 = stepped(v6, w[6], a[6]);
    let v8 = stepped(v7, w[7], a[7]);
    branch_signal(v0.to_memory).lemma_taken_by_flags();
    branch_signal(v1.to_memory).lemma_taken_by_flags();
    branch_signal(v2.to_memory).lemma_taken_by_flags();
    branch_signal(v3.to_memory).lemma_taken_by_flags();
    branch_signal(v4.to_memory).lemma_taken_by_flags();
    branch_signal(v5.to_memory).lemma_taken_by_flags();
    branch_signal(v6.to_memory).lemma_taken_by_flags();
    branch_signal(v7.to_memory).lemma_taken_by_flags();
    seq![v0, v1, v2, v3, v4, v5, v6, v7, v8]
}

/// Nine cycles without a fault from the start of the program
/// `jump_and_return` retire the return: register one holds the address
/// after the jump, the instruction that the jump passes over has written
/// nothing to register two, the target of the jump has written 7 to register
/// three, and register zero, which the return names as its destination,
/// holds zero. What lies behind the program in the instruction memory does
/// not matter.
#[verifier::spinoff_prover]
#[verifier::rlimit(100)]
pub proof fn lemma_jump_and_return<D: MemoryDevice>(
    before: RiscCore<MCUCache, D>,
    after: RiscCore<MCUCache, D>,
)
    requires
        RiscCore::ran(before, after, (RunReport { cycles: 9, fault: None })),
        starts_program(before, jump_and_return()),
    ensures
        after.registers@[0] == 0,
        after.registers@[1] == 0x8000_0004,
        after.registers@[2] == 0,
        after.registers@[3] == 7,
{
    let words = jump_and_return();
    let c8 = lemma_last_cycle(before, after, 9);
    let c7 = lemma_last_cycle(before, c8, 8);
    let c6 = lemma_last_cycle(before, c7, 7);
    let c5 = lemma_last_cycle(before, c6, 6);
    let c4 = lemma_last_cycle(before, c5, 5);
    let c3 = lemma_last_cycle(before, c4, 4);
    let c2 = lemma_last_cycle(before, c3, 3);
    let c1 = lemma_last_cycle(before, c2, 2);
    let c0 = lemma_last_cycle(before, c1, 1);
    let w = seq![
        words[0],
        words[1],
        words[2],
        words[2],
        words[3],
        next_word(c5),
        next_word(c6),
        words[1],
    ];
    let a = seq![
        next_answer(c0),
        next_answer(c1),
        next_answer(c2),
        next_answer(c3),
        next_answer(c4),
        next_answer(c5),
        next_answer(c6),
        next_answer(c7),
    ];
    let v = lemma_jump_and_return_flow(flow_of(c0), w, a);
    lemma_program_cycle(c0, c1, words, 0);
    assert(flow_of(c1) == v[0int + 1]);
    lemma_program_cycle(c1, c2, words, 1);
    assert(flow_of(c2) == v[1int + 1]);
    lemma_program_cycle(c2, c3, words, 2);
    assert(flow_of(c3) == v[2int + 1]);
    lemma_program_cycle(c3, c4, words, 2);
    assert(flow_of(c4) == v[3int + 1]);
    lemma_program_cycle(c4, c5, words, 3);
    assert(flow_of(c5) == v[4int + 1]);
    lemma_program_cycle(c5, c6, words, 4);
    assert(flow_of(c6) == v[5int + 1]);
    lemma_program_cycle(c6, c7, words, 5);
    assert(flow_of(c7) == v[6int + 1]);
    lemma_program_cycle(c7, c8, words, 1);
    assert(flow_of(c8) == v[7int + 1]);
    lemma_cycle_registers(c8, after);
}

/// The program `sw x5,0(x6); lw x10,0(x6)`.
pub open spec fn store_and_load() -> Seq<RiscWord> {
    seq![0x0053_2023u32, 0x0003_2503u32]
}

/// Whether the data side of a core is a direct memory that begins at
/// `DCACHE_BASE` and is made of lines of whole words.
pub open spec fn holds_data<D: MemoryDevice>(core: RiscCore<MCUCache, D>) -> bool {
    &&& core.dcache.is_some()
    &&& core.dcache.unwrap().well_formed()
    &&& core.dcache.unwrap().line_size % 4 == 0
    &&& core.dcache.unwrap().start_address == DCACHE_BASE
}

/// What the pipeline of a core holds when it starts the program
/// `store_and_load` to store `value` at `DCACHE_BASE`: the program counter
/// at the reset vector, `value` in register five and `DCACHE_BASE` in
/// register six, and bubbles.
pub open spec fn starts_store(v: Flow, value: RiscWord) -> bool {
    &&& v.pc == RESET_VECTOR
    &&& v.registers.len() == NUM_REGISTERS
    &&& v.registers[0] == 0
    &&& v.registers[5] == value
    &&& v.registers[6] == DCACHE_BASE
    &&& v.to_decode == IfId::bubble()
    &&& v.to_execute == IdEx::bubble()
    &&& v.to_memory == ExMem::bubble()
    &&& v.to_writeback == MemWb::bubble()
}

/// The program `store_and_load` in the pipeline: the fourth step stores the
/// four bytes of `value` at `DCACHE_BASE`, the fifth loads a word from
/// there, and where that load is answered with the bytes of `value`, the
/// value is on its way to register ten.
#[verifier::spinoff_prover]
#[verifier::rlimit(100)]
pub proof fn lemma_store_and_load_flow(
    v0: Flow,
    value: RiscWord,
    w: Seq<RiscWord>,
    a: Seq<MemoryResponseView>,
) -> (v: Seq<Flow>)
    requires
        starts_store(v0, value),
        w.len() == 5,
        a.len() == 5,
        w[0] == 0x0053_2023u32,
        w[1] == 0x0003_2503u32,
    ensures
        v.len() == 6,
        v[0] == v0,
        forall|k: int| 0 <= k < 5 ==> #[trigger] v[k + 1] == stepped(v[k], w[k], a[k]),
        forall|k: int|
            0 <= k < 5 ==> fetch_address(
                (#[trigger] v[k]).pc,
                branch_signal(v[k].to_memory),
            ) == RESET_VECTOR + 4 * k,
        forall|k: int| 0 <= k < 3 ==> access_of((#[trigger] v[k]).to_memory).is_none(),
        access_of(v[3].to_memory) == Some(
            MemoryRequestView::write(DCACHE_BASE, WordSize::WORD, word_bytes(value)),
        ),
        access_of(v[4].to_memory) == Some(MemoryRequestView::read(DCACHE_BASE, WordSize::WORD)),
        a[4] == (MemoryResponseView {
            data: word_bytes(value),
            status: MemoryResponseType::CacheHit,
        }) ==> committed(v[5].registers, commit_of(v[5].to_writeback))[10] == value,
{
    let v1 = stepped(v0, w[0], a[0]);
    let v2 = stepped(v1, w[1], a[1]);
    let v3 = stepped(v2, w[2], a[2]);
    let v4 = stepped(v3, w[3], a[3]);
    let v5 = stepped(v4, w[4], a[4]);
    branch_signal(v0.to_memory).lemma_taken_by_flags();
    branch_signal(v1.to_memory).lemma_taken_by_flags();
    branch_signal(v2.to_memory).lemma_taken_by_flags();
    branch_signal(v3.to_memory).lemma_taken_by_flags();
    branch_signal(v4.to_memory).lemma_taken_by_flags();
    lemma_word_bytes_round_trip(value);
    seq![v0, v1, v2, v3, v4, v5]
}

/// Six cycles without a fault from the start of the program
/// `store_and_load` retire the load: register ten holds the value that the
/// store took from register five and wrote to the data memory at
/// `DCACHE_BASE`, whatever that value is. What lies behind the program in
/// the instruction memory does not matter.
#[verifier::spinoff_prover]
#[verifier::rlimit(100)]
pub proof fn lemma_store_and_load<D: MemoryDevice>(
    before: RiscCore<MCUCache, D>,
    after: RiscCore<MCUCache, D>,
)
    requires
        RiscCore::ran(before, after, (RunReport { cycles: 6, fault: None })),
        holds_program(before, store_and_load()),
        holds_data(before),
        all_commit(before),
        starts_store(flow_of(before), before.registers@[5]),
    ensures
        after.registers@[10] == before.registers@[5],
{
    let words = store_and_load();
    let value = before.registers@[5];
    let c5 = lemma_last_cycle(before, after, 6);
    let c4 = lemma_last_cycle(before, c5, 5);
    let c3 = lemma_last_cycle(before, c4, 4);
    let c2 = lemma_last_cycle(before, c3, 3);
    let c1 = lemma_last_cycle(before, c2, 2);
    let c0 = lemma_last_cycle(before, c1, 1);
    let w = seq![words[0], words[1], next_word(c2), next_word(c3), next_word(c4)];
    let a = seq![
        next_answer(c0),
        next_answer(c1),
        next_answer(c2),
        next_answer(c3),
        next_answer(c4),
    ];
    let v = lemma_store_and_load_flow(flow_of(c0), value, w, a);
    lemma_program_cycle(c0, c1, words, 0);
    assert(flow_of(c1) == v[0int + 1]);
    lemma_program_cycle(c1, c2, words, 1);
    assert(flow_of(c2) == v[1int + 1]);
    lemma_program_cycle(c2, c3, words, 2);
    assert(flow_of(c3) == v[2int + 1]);
    assert(c3.dcache == c0.dcache);
    lemma_program_cycle(c3, c4, words, 3);
    assert(flow_of(c4) == v[3int + 1]);
    let memory = c3.dcache.unwrap();
    lemma_aligned_word_within_line(memory, DCACHE_BASE);
    lemma_geometry_kept(memory, c4.dcache.unwrap());
    lemma_word_bytes_round_trip(value);
    lemma_word_write_then_read(memory, c4.dcache.unwrap(), DCACHE_BASE, word_bytes(value));
    assert(word_bytes(value).take(4) =~= word_bytes(value));
    assert(next_answer(c4) == (MemoryResponseView {
        data: word_bytes(value),
        status: MemoryResponseType::CacheHit,
    }));
    lemma_program_cycle(c4, c5, words, 4);
    assert(flow_of(c5) == v[4int + 1]);
    lemma_cycle_registers(c5, after);
}

/// Four cycles without a fault from the start of the program
/// `store_and_load` take the store through the memory stage: the data
/// memory then holds the four bytes of the value of register five at
/// `DCACHE_BASE`, least significant first.
#[verifier::spinoff_prover]
#[verifier::rlimit(100)]
pub proof fn lemma_store_reaches_memory<D: MemoryDevice>(
    before: RiscCore<MCUCache, D>,
    after: RiscCore<MCUCache, D>,
)
    requires
        RiscCore::ran(before, after, (RunReport { cycles: 4, fault: None })),
        holds_program(before, store_and_load()),
        holds_data(before),
        all_commit(before),
        starts_store(flow_of(before), before.registers@[5]),
    ensures
        holds_data(after),
        after.dcache.unwrap().contents().subrange(0, 4) == word_bytes(before.registers@[5]),
{
    let words = store_and_load();
    let value = before.registers@[5];
    let c3 = lemma_last_cycle(before, after, 4);
    let c2 = lemma_last_cycle(before, c3, 3);
    let c1 = lemma_last_cycle(before, c2, 2);
    let c0 = lemma_last_cycle(before, c1, 1);
    let w = seq![words[0], words[1], next_word(c2), next_word(c3), 0u32];
    let a = seq![
        next_answer(c0),
        next_answer(c1),
        next_answer(c2),
        next_answer(c3),
        next_answer(c3),
    ];
    let v = lemma_store_and_load_flow(flow_of(c0), value, w, a);
    lemma_program_cycle(c0, c1, words, 0);
    assert(flow_of(c1) == v[0int + 1]);
    lemma_program_cycle(c1, c2, words, 1);
    assert(flow_of(c2) == v[1int + 1]);
    lemma_program_cycle(c2, c3, words, 2);
    assert(flow_of(c3) == v[2int + 1]);
    assert(c3.dcache == c0.dcache);
    lemma_program_cycle(c3, after, words, 3);
    let memory = c3.dcache.unwrap();
    lemma_aligned_word_within_line(memory, DCACHE_BASE);
    lemma_geometry_kept(memory, after.dcache.unwrap());
    lemma_word_bytes_round_trip(value);
    lemma_word_write_then_read(memory, after.dcache.unwrap(), DCACHE_BASE, word_bytes(value));
    assert(word_bytes(value).take(4) =~= word_bytes(value));
}

/// The program `sb x5,4(x8); sb x6,4(x8); sb x7,4(x8)`.
pub open spec fn send_three() -> Seq<RiscWord> {
    seq![0x0054_0223u32, 0x0064_0223u32, 0x0074_0223u32]
}

/// The byte that a store of one byte takes from a register.
pub open spec fn low_byte(value: RiscWord) -> u8 {
    (value % 0x100) as u8
}

/// The store of the low byte of `value` to the transmit register of the
/// serial port, as the memory stage asks for it.
pub open spec fn send_request(value: RiscWord) -> MemoryRequestView {
    MemoryRequestView::write(
        (UART_BASE + UART_TX_OFFSET) as u64,
        WordSize::BYTE,
        word_bytes((value % 0x100) as u32),
    )
}

/// Whether the data side of a core is a direct memory at `DCACHE_BASE` with
/// the serial port of the microcontroller alone behind it in the memory
/// management unit, and `sent` is what the port has sent and nobody has
/// collected.
pub open spec fn holds_port(core: RiscCore<MCUCache, Device>, sent: Seq<u8>) -> bool {
    &&& holds_data(core)
    &&& core.mmu.well_formed()
    &&& core.mmu.devices@.len() == 1
    &&& match core.mmu.devices@[0] {
        Device::Serial(port) => port.start_address == UART_BASE && port.end_address == UART_END
            && port.transmitted@ == sent,
        Device::Memory(memory) => false,
    }
}

/// What the pipeline of a core holds when it starts the program
/// `send_three`: the program counter at the reset vector, the first address
/// of the serial port in register eight, and bubbles.
pub open spec fn starts_send(v: Flow) -> bool {
    &&& v.pc == RESET_VECTOR
    &&& v.registers.len() == NUM_REGISTERS
    &&& v.registers[0] == 0
    &&& v.registers[8] == UART_BASE
    &&& v.to_decode == IfId::bubble()
    &&& v.to_execute == IdEx::bubble()
    &&& v.to_memory == ExMem::bubble()
    &&& v.to_writeback == MemWb::bubble()
}

/// The program `send_three` in the pipeline: the fourth, fifth and sixth
/// step store the low bytes of registers five, six and seven, in that
/// order, to the transmit register of the serial port; the steps before
/// them make no load and no store.
#[verifier::spinoff_prover]
#[verifier::rlimit(100)]
pub proof fn lemma_send_three_flow(v0: Flow, w: Seq<RiscWord>, a: Seq<MemoryResponseView>) -> (v:
    Seq<Flow>)
    requires
        starts_send(v0),
        w.len() == 5,
        a.len() == 5,
        w[0] == 0x0054_0223u32,
        w[1] == 0x0064_0223u32,
        w[2] == 0x0074_0223u32,
    ensures
        v.len() == 6,
        v[0] == v0,
        forall|k: int| 0 <= k < 5 ==> #[trigger] v[k + 1] == stepped(v[k], w[k], a[k]),
        forall|k: int|
            0 <= k < 6 ==> fetch_address(
                (#[trigger] v[k]).pc,
                branch_signal(v[k].to_memory),
            ) == RESET_VECTOR + 4 * k,
        forall|k: int| 0 <= k < 3 ==> access_of((#[trigger] v[k]).to_memory).is_none(),
        access_of(v[3].to_memory) == Some(send_request(v0.registers[5])),
        access_of(v[4].to_memory) == Some(send_request(v0.registers[6])),
        access_of(v[5].to_memory) == Some(send_request(v0.registers[7])),
{
    let v1 = stepped(v0, w[0], a[0]);
    let v2 = stepped(v1, w[1], a[1]);
    let v3 = stepped(v2, w[2], a[2]);
    let v4 = stepped(v3, w[3], a[3]);
    let v5 = stepped(v4, w[4], a[4]);
    branch_signal(v0.to_memory).lemma_taken_by_flags();
    branch_signal(v1.to_memory).lemma_taken_by_flags();
    branch_signal(v2.to_memory).lemma_taken_by_flags();
    branch_signal(v3.to_memory).lemma_taken_by_flags();
    branch_signal(v4.to_memory).lemma_taken_by_flags();
    branch_signal(v5.to_memory).lemma_taken_by_flags();
    seq![v0, v1, v2, v3, v4, v5]
}

/// A cycle that stores a byte to the transmit register of the serial port:
/// the data memory does not hold the address, so the unit serves the store,
/// and the port has sent the byte after what it had sent.
#[verifier::spinoff_prover]
#[verifier::rlimit(100)]
pub proof fn lemma_send_cycle(
    before: RiscCore<MCUCache, Device>,
    after: RiscCore<MCUCache, Device>,
    sent: Seq<u8>,
    value: RiscWord,
)
    requires
        holds_port(before, sent),
        after.dcache.is_some(),
        device_step(before.dcache.unwrap(), after.dcache.unwrap(), send_request(value)),
        before.dcache.unwrap().response(send_request(value)).status != MemoryResponseType::CacheHit
            ==> before.mmu.served(&after.mmu, send_request(value)),
    ensures
        holds_port(after, sent.push(low_byte(value))),
{
    let request = send_request(value);
    lemma_geometry_kept(before.dcache.unwrap(), after.dcache.unwrap());
    let ranges = before.mmu.ranges();
    assert(is_first_match(ranges, request.data_address, 0));
    assert(before.mmu.route(request) == Some(0int));
    assert(request.payload() =~= seq![low_byte(value)]);
    assert(sent + request.payload() =~= sent.push(low_byte(value)));
    assert(after.mmu.kind(0) == before.mmu.kind(0));
    assert(after.mmu.range(0) == before.mmu.range(0));
}

/// A cycle of a core that holds a program and the serial port, as
/// `lemma_program_cycle` has it: where the memory stage makes no load and no
/// store the port is as it was, and where it stores the low byte of `value`
/// to the transmit register the port has sent that byte.
#[verifier::spinoff_prover]
#[verifier::rlimit(100)]
pub proof fn lemma_port_cycle(
    before: RiscCore<MCUCache, Device>,
    after: RiscCore<MCUCache, Device>,
    words: Seq<RiscWord>,
    i: int,
    sent: Seq<u8>,
    value: RiscWord,
)
    requires
        RiscCore::cycle(before, after, None),
        all_commit(before),
        holds_program(before, words),
        holds_port(before, sent),
        0 <= i < PROGRAM_ROOM,
        next_fetch(before) == RESET_VECTOR + 4 * i,
    ensures
        flow_of(after) == stepped(flow_of(before), next_word(before), next_answer(before)),
        i < words.len() ==> next_word(before) == words[i],
        all_commit(after),
        holds_program(after, words),
        access_of(flow_of(before).to_memory).is_none() ==> holds_port(after, sent),
        access_of(flow_of(before).to_memory) == Some(send_request(value)) ==> holds_port(
            after,
            sent.push(low_byte(value)),
        ),
{
    lemma_program_cycle(before, after, words, i);
    if access_of(flow_of(before).to_memory) == Some(send_request(value)) {
        lemma_send_cycle(before, after, sent, value);
    }
}

/// Six cycles without a fault from the start of the program `send_three`
/// send three bytes to the host console: the low bytes of registers five,
/// six and seven, in that order, and nothing else, where nothing waited
/// before. What lies behind the program in the instruction memory does not
/// matter.
#[verifier::spinoff_prover]
#[verifier::rlimit(100)]
pub proof fn lemma_send_three(
    before: RiscCore<MCUCache, Device>,
    after: RiscCore<MCUCache, Device>,
)
    requires
        RiscCore::ran(before, after, (RunReport { cycles: 6, fault: None })),
        holds_program(before, send_three()),
        holds_port(before, Seq::empty()),
        all_commit(before),
        starts_send(flow_of(before)),
    ensures
        after.console_output() == seq![
            low_byte(before.registers@[5]),
            low_byte(before.registers@[6]),
            low_byte(before.registers@[7]),
        ],
{
    let words = send_three();
    let c5 = lemma_last_cycle(before, after, 6);
    let c4 = lemma_last_cycle(before, c5, 5);
    let c3 = lemma_last_cycle(before, c4, 4);
    let c2 = lemma_last_cycle(before, c3, 3);
    let c1 = lemma_last_cycle(before, c2, 2);
    let c0 = lemma_last_cycle(before, c1, 1);
    let w = seq![words[0], words[1], words[2], next_word(c3), next_word(c4)];
    let a = seq![
        next_answer(c0),
        next_answer(c1),
        next_answer(c2),
        next_answer(c3),
        next_answer(c4),
    ];
    let v = lemma_send_three_flow(flow_of(c0), w, a);
    let x5 = before.registers@[5];
    let x6 = before.registers@[6];
    let x7 = before.registers@[7];
    let none = Seq::<u8>::empty();
    lemma_port_cycle(c0, c1, words, 0, none, 0);
    assert(flow_of(c1) == v[0int + 1]);
    lemma_port_cycle(c1, c2, words, 1, none, 0);
    assert(flow_of(c2) == v[1int + 1]);
    lemma_port_cycle(c2, c3, words, 2, none, 0);
    assert(flow_of(c3) == v[2int + 1]);
    lemma_port_cycle(c3, c4, words, 3, none, x5);
    assert(flow_of(c4) == v[3int + 1]);
    lemma_port_cycle(c4, c5, words, 4, none.push(low_byte(x5)), x6);
    assert(flow_of(c5) == v[4int + 1]);
    lemma_port_cycle(c5, after, words, 5, none.push(low_byte(x5)).push(low_byte(x6)), x7);
    lemma_port_output(after, none.push(low_byte(x5)).push(low_byte(x6)).push(low_byte(x7)));
    assert(none.push(low_byte(x5)).push(low_byte(x6)).push(low_byte(x7)) =~= seq![
        low_byte(x5),
        low_byte(x6),
        low_byte(x7),
    ]);
}

/// What waits for the host console in a core that holds the serial port is
/// what the port has sent.
pub proof fn lemma_port_output(core: RiscCore<MCUCache, Device>, sent: Seq<u8>)
    requires
        holds_port(core, sent),
        core.icache.is_some(),
    ensures
        core.console_output() == sent,
{
    reveal_with_fuel(gathered_output, 2);
    assert(core.console_output() =~= sent);
}

} // verus!
