//! Writeback: the choice of the value that an instruction commits.

use crate::cache::Cache;
use crate::cdb::driven;
use crate::mcu_core::{EX_STAGE, ID_STAGE, WB_STAGE};
use crate::memory_management_unit::MemoryDevice;
use crate::payload::{Forward, MemWb};
use crate::pipeline_stage::PipelineData;
use crate::risc_soc::RiscCore;
use vstd::prelude::*;

verus! {

/// The commit that writeback publishes: the loaded value where the
/// instruction was a load, else the result of execute.
pub open spec fn commit_of(w: MemWb) -> Forward {
    Forward {
        reg_write: w.reg_write,
        rd: w.rd,
        value: if w.reg_src == 1 {
            w.mem_value
        } else {
            w.alu_out
        },
    }
}

/// The combinational logic of the writeback stage, on records.
pub fn writeback(w: &MemWb) -> (r: Forward)
    ensures
        r == commit_of(*w),
{
    Forward {
        reg_write: w.reg_write,
        rd: w.rd,
        value: if w.reg_src == 1 {
            w.mem_value
        } else {
            w.alu_out
        },
    }
}

/// Whether `after` is the core `before` once its writeback stage has worked
/// on `pipeline_reg` and put out `out`: the commit is on the wires to decode
/// and to execute, nothing else has changed, and the stage puts out nothing.
#[verifier::opaque]
pub open spec fn writeback_step<C: Cache, D: MemoryDevice>(
    before: RiscCore<C, D>,
    pipeline_reg: Seq<u8>,
    after: RiscCore<C, D>,
    out: Seq<u8>,
) -> bool {
    let commit = commit_of(MemWb::from_bytes(pipeline_reg)).to_bytes();
    &&& after == (RiscCore { cdb: after.cdb, ..before })
    &&& after.well_formed()
    &&& after.cdb.same_wiring(&before.cdb)
    &&& after.cdb@ == driven(
        driven(before.cdb@, WB_STAGE as int, ID_STAGE as int, commit),
        WB_STAGE as int,
        EX_STAGE as int,
        commit,
    )
    &&& out == Seq::<u8>::empty()
}

/// What a step of the writeback stage keeps and what it drives.
pub proof fn lemma_writeback_step<C: Cache, D: MemoryDevice>(
    before: RiscCore<C, D>,
    pipeline_reg: Seq<u8>,
    after: RiscCore<C, D>,
    out: Seq<u8>,
)
    requires
        writeback_step(before, pipeline_reg, after, out),
    ensures
        after == (RiscCore { cdb: after.cdb, ..before }),
        after.well_formed(),
        after.cdb.same_wiring(&before.cdb),
        after.cdb@ == driven(
            driven(
                before.cdb@,
                WB_STAGE as int,
                ID_STAGE as int,
                commit_of(MemWb::from_bytes(pipeline_reg)).to_bytes(),
            ),
            WB_STAGE as int,
            EX_STAGE as int,
            commit_of(MemWb::from_bytes(pipeline_reg)).to_bytes(),
        ),
        out == Seq::<u8>::empty(),
{
    reveal(writeback_step);
}

/// The writeback stage: chooses the value that the instruction commits and
/// publishes the commit to decode, which writes the register file, and to
/// execute, for forwarding.
pub fn rv32_mcu_commit_stage<C: Cache, D: MemoryDevice>(
    pipeline_reg: &PipelineData,
    rv32_core: &mut RiscCore<C, D>,
) -> (r: PipelineData)
    requires
        old(rv32_core).well_formed(),
        old(rv32_core).num_stages > WB_STAGE,
    ensures
        writeback_step(*old(rv32_core), pipeline_reg@, *final(rv32_core), r@),
        final(rv32_core).well_formed(),
{
    proof {
        reveal(writeback_step);
    }
    let commit = writeback(&MemWb::parse(pipeline_reg));
    rv32_core.cdb.assign(WB_STAGE, ID_STAGE, commit.encode());
    rv32_core.cdb.assign(WB_STAGE, EX_STAGE, commit.encode());
    PipelineData(Vec::new())
}

} // verus!
