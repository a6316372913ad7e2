//! Memory: the backward signals of a cycle, and loads and stores.

use crate::cache::Cache;
use crate::cdb::driven;
use crate::mcu_core::{EX_STAGE, ID_STAGE, IF_STAGE, MEM_STAGE, WB_STAGE};
use crate::memory_management_unit::{
    MemoryDevice, MemoryRequest, MemoryRequestType, MemoryRequestView, MemoryResponse,
    MemoryResponseType, MemoryResponseView,
};
use crate::payload::{BranchSignal, ExMem, Forward, MemWb};
use crate::pipeline_stage::{outcome_view, PipelineData, StageError};
use crate::risc_soc::{geometry_kept, routed_effect, routed_outcome, RiscCore};
use crate::risc_word::{
    le_u16, le_u32, u16_from_le, u32_from_le, word_bytes, word_to_le, RiscWord, WordSize,
};
use vstd::prelude::*;

verus! {

/// Value of `mem_rw` for a load.
pub const MEM_LOAD: u8 = 1;

/// Value of `mem_rw` for a store.
pub const MEM_STORE: u8 = 3;

/// The branch resolution that the memory stage sends to fetch and decode.
pub open spec fn branch_signal(e: ExMem) -> BranchSignal {
    BranchSignal { branch_or_jump: e.branch_or_jump, take_jump: e.take_jump, pc: e.pc }
}

/// The result that the memory stage forwards to execute.
pub open spec fn memory_forward(e: ExMem) -> Forward {
    Forward { reg_write: e.reg_write, rd: e.rd, value: e.alu_out }
}

/// Width of a load by its `func3`: byte for LB and LBU, half for LH and LHU,
/// word otherwise.
pub open spec fn load_size(func3: u8) -> WordSize {
    if func3 == 0 || func3 == 4 {
        WordSize::BYTE
    } else if func3 == 1 || func3 == 5 {
        WordSize::HALF
    } else {
        WordSize::WORD
    }
}

/// Width of a store by its `func3`: byte for SB, half for SH, word otherwise.
pub open spec fn store_size(func3: u8) -> WordSize {
    if func3 == 0 {
        WordSize::BYTE
    } else if func3 == 1 {
        WordSize::HALF
    } else {
        WordSize::WORD
    }
}

/// The value that a store hands to memory: `rs2` cut to the width of the
/// store.
pub open spec fn store_value(func3: u8, rs2: RiscWord) -> RiscWord {
    if func3 == 0 {
        rs2 % 0x100
    } else if func3 == 1 {
        rs2 % 0x1_0000
    } else {
        rs2
    }
}

/// A byte as a word, with its sign bit copied into the upper bits.
pub open spec fn sign_extend_byte(b: u8) -> RiscWord {
    if b < 0x80 {
        b as RiscWord
    } else {
        (0xffff_ff00 + b) as RiscWord
    }
}

/// A half word as a word, with its sign bit copied into the upper bits.
pub open spec fn sign_extend_half(h: u16) -> RiscWord {
    if h < 0x8000 {
        h as RiscWord
    } else {
        (0xffff_0000 + h) as RiscWord
    }
}

/// The word that a load writes to its register, from the bytes read: LB and
/// LH extend the sign, LBU and LHU fill with zeros, anything else is a word.
pub open spec fn loaded_value(func3: u8, data: Seq<u8>) -> RiscWord {
    if func3 == 0 {
        sign_extend_byte(data[0])
    } else if func3 == 4 {
        data[0] as RiscWord
    } else if func3 == 1 {
        sign_extend_half(le_u16(data, 0))
    } else if func3 == 5 {
        le_u16(data, 0) as RiscWord
    } else {
        le_u32(data, 0)
    }
}

/// The request that the memory stage makes: a read for a load, a write for a
/// store, none for anything else. The address is the 32-bit result of
/// execute.
pub open spec fn access_of(e: ExMem) -> Option<MemoryRequestView> {
    if e.mem_rw == MEM_LOAD {
        Some(MemoryRequestView::read(e.alu_out as u64, load_size(e.func3)))
    } else if e.mem_rw == MEM_STORE {
        Some(
            MemoryRequestView::write(
                e.alu_out as u64,
                store_size(e.func3),
                word_bytes(store_value(e.func3, e.rs2)),
            ),
        )
    } else {
        None
    }
}

/// Whether a status lets the stage go on.
pub open spec fn spec_is_success(status: MemoryResponseType) -> bool {
    status == MemoryResponseType::CacheHit || status == MemoryResponseType::Valid
}

/// What the memory stage hands to writeback when it makes no request.
pub open spec fn pass_through(e: ExMem) -> MemWb {
    MemWb { reg_write: e.reg_write, reg_src: 0, rd: e.rd, alu_out: e.alu_out, mem_value: 0 }
}

/// What the memory stage hands to writeback once its request is answered. A
/// status other than `CacheHit` and `Valid` is a fault, and so is a load
/// answered with a number of bytes other than its width.
pub open spec fn access_outcome(e: ExMem, response: MemoryResponseView) -> Result<
    MemWb,
    StageError,
> {
    if !spec_is_success(response.status) {
        Err(StageError::MemoryFault(response.status))
    } else if e.mem_rw == MEM_LOAD {
        if response.data.len() != load_size(e.func3).spec_bytes() {
            Err(StageError::WrongDataLength)
        } else {
            Ok(
                MemWb {
                    reg_write: e.reg_write,
                    reg_src: 1,
                    rd: e.rd,
                    alu_out: e.alu_out,
                    mem_value: loaded_value(e.func3, response.data),
                },
            )
        }
    } else {
        Ok(pass_through(e))
    }
}

/// Whether a status lets the stage go on.
#[verifier::when_used_as_spec(spec_is_success)]
pub fn is_success(status: MemoryResponseType) -> (r: bool)
    ensures
        r == spec_is_success(status),
{
    match status {
        MemoryResponseType::CacheHit => true,
        MemoryResponseType::Valid => true,
        _ => false,
    }
}

/// The two signals that the memory stage sends backward: the branch
/// resolution for fetch and decode, and the result for execute.
pub fn memory_signals(e: &ExMem) -> (r: (BranchSignal, Forward))
    ensures
        r.0 == branch_signal(*e),
        r.1 == memory_forward(*e),
{
    (
        BranchSignal { branch_or_jump: e.branch_or_jump, take_jump: e.take_jump, pc: e.pc },
        Forward { reg_write: e.reg_write, rd: e.rd, value: e.alu_out },
    )
}

/// The request that the memory stage makes, if any. It is well formed.
pub fn memory_access(e: &ExMem) -> (r: Option<MemoryRequest>)
    ensures
        match r {
            Some(request) => access_of(*e) == Some(request@) && request@.well_formed(),
            None => access_of(*e).is_none(),
        },
{
    if e.mem_rw == MEM_LOAD {
        let size = if e.func3 == 0 || e.func3 == 4 {
            WordSize::BYTE
        } else if e.func3 == 1 || e.func3 == 5 {
            WordSize::HALF
        } else {
            WordSize::WORD
        };
        Some(
            MemoryRequest {
                request_type: MemoryRequestType::READ,
                data_address: e.alu_out as u64,
                data_size: size,
                data: None,
            },
        )
    } else if e.mem_rw == MEM_STORE {
        let (size, value) = if e.func3 == 0 {
            (WordSize::BYTE, e.rs2 % 0x100)
        } else if e.func3 == 1 {
            (WordSize::HALF, e.rs2 % 0x1_0000)
        } else {
            (WordSize::WORD, e.rs2)
        };
        Some(
            MemoryRequest {
                request_type: MemoryRequestType::WRITE,
                data_address: e.alu_out as u64,
                data_size: size,
                data: Some(word_to_le(value)),
            },
        )
    } else {
        None
    }
}

/// The word that a load writes to its register, from the bytes read.
pub fn load_value(func3: u8, data: &Vec<u8>) -> (r: RiscWord)
    requires
        data@.len() == load_size(func3).spec_bytes(),
    ensures
        r == loaded_value(func3, data@),
{
    if func3 == 0 {
        let b: u8 = data[0];
        if b < 0x80 {
            b as RiscWord
        } else {
            0xffff_ff00 + b as RiscWord
        }
    } else if func3 == 4 {
        data[0] as RiscWord
    } else if func3 == 1 {
        let h: u16 = u16_from_le(data[0], data[1]);
        assert(h == le_u16(data@, 0));
        if h < 0x8000 {
            h as RiscWord
        } else {
            0xffff_0000 + h as RiscWord
        }
    } else if func3 == 5 {
        let h: u16 = u16_from_le(data[0], data[1]);
        assert(h == le_u16(data@, 0));
        h as RiscWord
    } else {
        let w: u32 = u32_from_le(data[0], data[1], data[2], data[3]);
        assert(w == le_u32(data@, 0));
        w
    }
}

/// What the memory stage hands to writeback once its request is answered.
pub fn complete_access(e: &ExMem, response: &MemoryResponse) -> (r: Result<MemWb, StageError>)
    ensures
        r == access_outcome(*e, response@),
{
    if !is_success(response.status) {
        return Err(StageError::MemoryFault(response.status));
    }
    if e.mem_rw == MEM_LOAD {
        let size = if e.func3 == 0 || e.func3 == 4 {
            WordSize::BYTE
        } else if e.func3 == 1 || e.func3 == 5 {
            WordSize::HALF
        } else {
            WordSize::WORD
        };
        if response.data.len() != size.bytes() {
            return Err(StageError::WrongDataLength);
        }
        Ok(
            MemWb {
                reg_write: e.reg_write,
                reg_src: 1,
                rd: e.rd,
                alu_out: e.alu_out,
                mem_value: load_value(e.func3, &response.data),
            },
        )
    } else {
        Ok(MemWb { reg_write: e.reg_write, reg_src: 0, rd: e.rd, alu_out: e.alu_out, mem_value: 0 })
    }
}

/// What the memory stage puts out for the record `e` when its request, if it
/// makes one, has the outcome `answer`.
pub open spec fn memory_outcome(e: ExMem, answer: Result<MemoryResponseView, StageError>) -> Result<
    Seq<u8>,
    StageError,
> {
    if access_of(e).is_none() {
        Ok(pass_through(e).to_bytes())
    } else {
        match answer {
            Err(fault) => Err(fault),
            Ok(response) => match access_outcome(e, response) {
                Ok(w) => Ok(w.to_bytes()),
                Err(fault) => Err(fault),
            },
        }
    }
}

/// Whether `after` is the core `before` once its memory stage has worked on
/// `pipeline_reg` with the outcome `out`. The branch resolution is on the
/// wires to fetch and to decode and the result on the wire to execute; a
/// load or a store has been served by the data cache and, unless that hit,
/// by the memory management unit. Nothing else of the core has changed.
#[verifier::opaque]
pub open spec fn memory_step<C: Cache, D: MemoryDevice>(
    before: RiscCore<C, D>,
    pipeline_reg: Seq<u8>,
    after: RiscCore<C, D>,
    out: Result<Seq<u8>, StageError>,
) -> bool {
    let e = ExMem::from_bytes(pipeline_reg);
    let signal = branch_signal(e).to_bytes();
    let forward = memory_forward(e).to_bytes();
    &&& after == (RiscCore { cdb: after.cdb, dcache: after.dcache, mmu: after.mmu, ..before })
    &&& after.well_formed()
    &&& after.cdb.same_wiring(&before.cdb)
    &&& after.cdb@ == driven(
        driven(
            driven(before.cdb@, MEM_STAGE as int, IF_STAGE as int, signal),
            MEM_STAGE as int,
            ID_STAGE as int,
            signal,
        ),
        MEM_STAGE as int,
        EX_STAGE as int,
        forward,
    )
    &&& match access_of(e) {
        None => after.dcache == before.dcache && after.mmu == before.mmu,
        Some(request) => routed_effect(
            before.dcache,
            after.dcache,
            before.mmu,
            after.mmu,
            request,
        ),
    }
    &&& out == memory_outcome(
        e,
        match access_of(e) {
            None => Err(StageError::NoCache),
            Some(request) => routed_outcome(before.dcache, before.mmu, request),
        },
    )
}

/// What a step of the memory stage keeps and what it drives.
pub proof fn lemma_memory_step<C: Cache, D: MemoryDevice>(
    before: RiscCore<C, D>,
    pipeline_reg: Seq<u8>,
    after: RiscCore<C, D>,
    out: Result<Seq<u8>, StageError>,
)
    requires
        memory_step(before, pipeline_reg, after, out),
    ensures
        after == (RiscCore { cdb: after.cdb, dcache: after.dcache, mmu: after.mmu, ..before }),
        after.well_formed(),
        after.cdb.same_wiring(&before.cdb),
        after.cdb@ == driven(
            driven(
                driven(
                    before.cdb@,
                    MEM_STAGE as int,
                    IF_STAGE as int,
                    branch_signal(ExMem::from_bytes(pipeline_reg)).to_bytes(),
                ),
                MEM_STAGE as int,
                ID_STAGE as int,
                branch_signal(ExMem::from_bytes(pipeline_reg)).to_bytes(),
            ),
            MEM_STAGE as int,
            EX_STAGE as int,
            memory_forward(ExMem::from_bytes(pipeline_reg)).to_bytes(),
        ),
        geometry_kept(before.dcache, after.dcache),
        after.mmu.same_map(&before.mmu),
{
    reveal(memory_step);
}

/// What a step of the memory stage makes of the data cache and of the unit
/// behind it: they have served the load or store, if there is one, and are
/// as they were otherwise. A step without a fault has an answer.
pub proof fn lemma_memory_step_routes<C: Cache, D: MemoryDevice>(
    before: RiscCore<C, D>,
    pipeline_reg: Seq<u8>,
    after: RiscCore<C, D>,
    out: Result<Seq<u8>, StageError>,
)
    requires
        memory_step(before, pipeline_reg, after, out),
    ensures
        match access_of(ExMem::from_bytes(pipeline_reg)) {
            None => after.dcache == before.dcache && after.mmu == before.mmu,
            Some(request) => {
                &&& routed_effect(before.dcache, after.dcache, before.mmu, after.mmu, request)
                &&& out.is_ok() ==> before.dcache.is_some()
            },
        },
{
    reveal(memory_step);
}

/// The memory stage: publishes the branch resolution and the result of
/// execute on the bus, and performs the load or the store.
#[verifier::rlimit(50)]
pub fn rv32_mcu_mem_stage<C: Cache, D: MemoryDevice>(
    pipeline_reg: &PipelineData,
    rv32_core: &mut RiscCore<C, D>,
) -> (r: Result<PipelineData, StageError>)
    requires
        old(rv32_core).well_formed(),
        old(rv32_core).num_stages > WB_STAGE,
    ensures
        memory_step(*old(rv32_core), pipeline_reg@, *final(rv32_core), outcome_view(r)),
        final(rv32_core).well_formed(),
{
    proof {
        reveal(memory_step);
    }
    let e = ExMem::parse(pipeline_reg);
    let (signal, forward) = memory_signals(&e);
    rv32_core.cdb.assign(MEM_STAGE, IF_STAGE, signal.encode());
    rv32_core.cdb.assign(MEM_STAGE, ID_STAGE, signal.encode());
    rv32_core.cdb.assign(MEM_STAGE, EX_STAGE, forward.encode());
    match memory_access(&e) {
        None => Ok(
            (MemWb {
                reg_write: e.reg_write,
                reg_src: 0,
                rd: e.rd,
                alu_out: e.alu_out,
                mem_value: 0,
            }).encode(),
        ),
        Some(request) => {
            let response = rv32_core.dcache_request(request)?;
            let w = complete_access(&e, &response)?;
            Ok(w.encode())
        },
    }
}

} // verus!
