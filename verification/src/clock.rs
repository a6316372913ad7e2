//! The clock: one cycle of the five-stage pipeline, and runs of many cycles.
//!
//! Within a cycle every stage first samples the register that feeds it, then
//! the combinational logic of the stages works, from writeback back to
//! fetch, so that a stage finds on the bus what the later stages drive in the
//! same cycle; last, every stage commits what it computed, as its control
//! lines allow, and hands it to the next stage.

use crate::cache::Cache;
use crate::cdb::driven;
use crate::decode::{decode_step, lemma_decode_step, rv32_mcu_decode_stage};
use crate::execute::{add32, execute_step, rv32_mcu_execute_stage, wrapping_sum};
use crate::fetch::{fetch_address, fetch_step, lemma_fetch_step, rv32_mcu_fetch_stage};
use crate::laws::{lemma_cycle_program_counter, lemma_cycle_registers};
use crate::mcu_core::{EX_STAGE, ID_STAGE, IF_STAGE, MEM_STAGE, NUM_STAGES, WB_STAGE};
use crate::memory::{
    branch_signal, lemma_memory_step, memory_forward, memory_step, rv32_mcu_mem_stage,
};
use crate::memory_management_unit::MemoryDevice;
use crate::payload::{BranchSignal, ExMem, MemWb};
use crate::pipeline_stage::{
    outcome_view, sampled_input, Instruction, PipelineData, PipelinePayload, PipelineStage,
    StageError, StageLogic,
};
use crate::risc_soc::{committed, CoreError, PipelineControlSignals, RiscCore};
use crate::risc_word::{le_u32, zero_bytes};
use crate::writeback::{commit_of, lemma_writeback_step, rv32_mcu_commit_stage, writeback_step};
use vstd::prelude::*;

verus! {

/// The logic of the stage at each place of the pipeline.
pub open spec fn logic_at(i: int) -> StageLogic {
    if i == IF_STAGE {
        StageLogic::Fetch
    } else if i == ID_STAGE {
        StageLogic::Decode
    } else if i == EX_STAGE {
        StageLogic::Execute
    } else if i == MEM_STAGE {
        StageLogic::Memory
    } else {
        StageLogic::Writeback
    }
}

/// Whether a stage is the one that belongs at place `i` of the pipeline: it
/// has that index and that logic, reads from a register unless it is the
/// first, and feeds the next stage unless it is the last.
pub open spec fn stage_in_place(stage: PipelineStage, i: int) -> bool {
    &&& stage.index == i
    &&& stage.process_fn == logic_at(i)
    &&& stage.input_channel.is_some() == (i > 0)
    &&& stage.output_channel == (if i + 1 < NUM_STAGES {
        Some((i + 1) as usize)
    } else {
        None
    })
}

/// Whether `after` is the stage `before` once it has sampled its input and
/// found `instruction`: the payload in its register, or a bubble where the
/// register is empty or the stage has none. The register is empty
/// afterwards.
pub open spec fn stage_sampled(
    before: PipelineStage,
    after: PipelineStage,
    instruction: Instruction,
) -> bool {
    let found = match before.input_channel {
        Some(register) => sampled_input(register.slot),
        None => (Instruction(0), Seq::empty()),
    };
    &&& instruction == found.0
    &&& after.data_in@ == found.1
    &&& after.input_channel.is_some() == before.input_channel.is_some()
    &&& (after.input_channel.is_some() ==> after.input_channel.unwrap().held().is_none())
    &&& after == (PipelineStage {
        data_in: after.data_in,
        input_channel: after.input_channel,
        ..before
    })
}

/// The count of cycles after one more cycle. The count stops at the largest
/// value it can hold.
pub open spec fn next_cycle(cycle: u64) -> u64 {
    if cycle < u64::MAX {
        (cycle + 1) as u64
    } else {
        cycle
    }
}

/// The instruction and the output that a stage holds at the end of a cycle:
/// zeros if its reset line is set or the stage is squashed, else what it
/// sampled and computed if its enable line is set, else what it held before.
pub open spec fn stage_result(
    before: PipelineStage,
    signals: PipelineControlSignals,
    squash: bool,
    sampled: Instruction,
    candidate: Seq<u8>,
) -> (Instruction, Seq<u8>) {
    if signals.reset || squash {
        (Instruction(0), zero_bytes(before.size_out as nat))
    } else if signals.enable {
        (sampled, candidate)
    } else {
        (before.instruction, before.data_out@)
    }
}

/// Whether `after` is the stage `before` at the end of a cycle in which it
/// sampled `sampled` and computed `candidate`, and was squashed or not. The
/// first stage of the pipeline takes the instruction it holds from the first
/// word it puts out.
pub open spec fn stage_committed(
    before: PipelineStage,
    signals: PipelineControlSignals,
    squash: bool,
    sampled: Instruction,
    candidate: Seq<u8>,
    after: PipelineStage,
) -> bool {
    let result = stage_result(before, signals, squash, sampled, candidate);
    &&& after.data_out@ == result.1
    &&& after.instruction == (if before.index == 0 && result.1.len() >= 4 {
        Instruction(le_u32(result.1, 0))
    } else {
        result.0
    })
    &&& after.clock_cycle == next_cycle(before.clock_cycle)
    &&& after == (PipelineStage {
        instruction: after.instruction,
        data_out: after.data_out,
        clock_cycle: after.clock_cycle,
        input_channel: after.input_channel,
        ..before
    })
}

/// A stage commits the same whatever its input register held before.
pub proof fn lemma_committed_whatever_input(
    first: PipelineStage,
    before: PipelineStage,
    signals: PipelineControlSignals,
    squash: bool,
    sampled: Instruction,
    candidate: Seq<u8>,
    after: PipelineStage,
)
    requires
        before == (PipelineStage { input_channel: before.input_channel, ..first }),
        stage_committed(before, signals, squash, sampled, candidate, after),
    ensures
        stage_committed(first, signals, squash, sampled, candidate, after),
{
}

/// What the stage at place `i` of a core samples at the start of the next
/// cycle: the payload in its register, or the empty payload where the
/// register is empty or the stage has none.
pub open spec fn input_of<C: Cache, D: MemoryDevice>(core: RiscCore<C, D>, i: int) -> Seq<u8> {
    match core.stages@[i].input_channel {
        Some(register) => sampled_input(register.slot).1,
        None => Seq::empty(),
    }
}

/// Whether the control lines let a stage commit what it computed.
pub open spec fn commits(signals: PipelineControlSignals) -> bool {
    !signals.reset && signals.enable
}

impl<C: Cache, D: MemoryDevice> RiscCore<C, D> {
    /// Whether the stages are the five of the RV32I pipeline, in order and
    /// chained by their registers.
    pub open spec fn is_rv32i_pipeline(&self) -> bool {
        &&& self.stages@.len() == NUM_STAGES
        &&& forall|i: int| 0 <= i < NUM_STAGES ==> stage_in_place(#[trigger] self.stages@[i], i)
    }

    /// Whether `after` is the core `before` at the start of a cycle: every
    /// wire that leaves a stage is released, and every stage has sampled its
    /// input and found the instruction `sampled[i]`. Only a well-formed core
    /// with the five stages of the RV32I pipeline starts a cycle.
    pub open spec fn begun(before: Self, after: Self, sampled: Seq<Instruction>) -> bool {
        &&& before.well_formed()
        &&& before.is_rv32i_pipeline()
        &&& after == (RiscCore { cdb: after.cdb, stages: after.stages, ..before })
        &&& after.well_formed()
        &&& after.is_rv32i_pipeline()
        &&& after.cdb.same_wiring(&before.cdb)
        &&& forall|from: int, to: int|
            0 <= from < after.num_stages && 0 <= to < after.num_stages ==> (
            #[trigger] after.cdb@[from][to]) == (if from < NUM_STAGES {
                None
            } else {
                before.cdb@[from][to]
            })
        &&& sampled.len() == NUM_STAGES
        &&& forall|i: int|
            0 <= i < NUM_STAGES ==> stage_sampled(
                before.stages@[i],
                #[trigger] after.stages@[i],
                sampled[i],
            )
    }

    /// Whether `after` is the core `before` once the combinational logic of
    /// all stages has worked, from writeback back to fetch, with the outcome
    /// `out`: the outputs of the five stages, by index, or the first fault.
    /// `c1`, `c2` and `c3` are the core after writeback, after memory, and
    /// after decode; `wb_out`, `mem_out`, `id_out` and `if_out` are the
    /// outcomes of the stages. A fault ends the cycle where it occurs.
    pub open spec fn evaluated_through(
        before: Self,
        c1: Self,
        c2: Self,
        c3: Self,
        after: Self,
        wb_out: Seq<u8>,
        mem_out: Result<Seq<u8>, StageError>,
        id_out: Result<Seq<u8>, StageError>,
        if_out: Result<Seq<u8>, StageError>,
        out: Result<Seq<Seq<u8>>, StageError>,
    ) -> bool {
        let wb_in = before.stages@[WB_STAGE as int].data_in@;
        let mem_in = before.stages@[MEM_STAGE as int].data_in@;
        let ex_in = before.stages@[EX_STAGE as int].data_in@;
        let id_in = before.stages@[ID_STAGE as int].data_in@;
        &&& writeback_step(before, wb_in, c1, wb_out)
        &&& memory_step(c1, mem_in, c2, mem_out)
        &&& match mem_out {
            Err(fault) => after == c2 && out == Err::<Seq<Seq<u8>>, StageError>(fault),
            Ok(mem_bytes) => {
                &&& decode_step(c2, id_in, c3, id_out)
                &&& match id_out {
                    Err(fault) => after == c3 && out == Err::<Seq<Seq<u8>>, StageError>(fault),
                    Ok(id_bytes) => {
                        &&& fetch_step(c3, after, if_out)
                        &&& match if_out {
                            Err(fault) => out == Err::<Seq<Seq<u8>>, StageError>(fault),
                            Ok(if_bytes) => out == Ok::<Seq<Seq<u8>>, StageError>(
                                seq![
                                    if_bytes,
                                    id_bytes,
                                    execute_step(c2, ex_in),
                                    mem_bytes,
                                    wb_out,
                                ],
                            ),
                        }
                    },
                }
            },
        }
    }

    /// Whether `after` is the core `before` once the combinational logic of
    /// all stages has worked with the outcome `out`.
    pub open spec fn evaluated(
        before: Self,
        after: Self,
        out: Result<Seq<Seq<u8>>, StageError>,
    ) -> bool {
        exists|
            c1: Self,
            c2: Self,
            c3: Self,
            wb_out: Seq<u8>,
            mem_out: Result<Seq<u8>, StageError>,
            id_out: Result<Seq<u8>, StageError>,
            if_out: Result<Seq<u8>, StageError>,
        | #[trigger]
            Self::evaluated_through(
                before,
                c1,
                c2,
                c3,
                after,
                wb_out,
                mem_out,
                id_out,
                if_out,
                out,
            )
    }

    /// Whether the branch resolution that the memory stage has put on its
    /// wire to decode is that of a taken branch or jump.
    #[verifier::opaque]
    pub open spec fn squashing(&self) -> bool {
        BranchSignal::from_bytes(self.cdb.sampled(MEM_STAGE as int, ID_STAGE as int)).taken()
    }

    /// Whether the stage at place `i` is squashed at the end of the cycle:
    /// it is the execute stage, and the memory stage has resolved a taken
    /// branch or jump in this cycle.
    pub open spec fn squashes(&self, i: int) -> bool {
        i == EX_STAGE && self.squashing()
    }

    /// Whether `after` is the core `before` at the end of a cycle in which
    /// the stages sampled `sampled` and computed `candidates`. Every stage
    /// has committed as its control lines allow and has filled the register
    /// of the next stage with what it now holds; the execute stage puts out
    /// zeros behind a taken branch or jump in the memory stage, whatever its
    /// control lines. The control lines stay as they are. The program
    /// counter has advanced by four, modulo 2^32, if the first stage
    /// committed what it computed.
    pub open spec fn ended(
        before: Self,
        sampled: Seq<Instruction>,
        candidates: Seq<Seq<u8>>,
        after: Self,
    ) -> bool {
        &&& after == (RiscCore {
            stages: after.stages,
            program_counter: after.program_counter,
            ..before
        })
        &&& after.well_formed()
        &&& after.is_rv32i_pipeline()
        &&& after.program_counter == (if commits(
            before.pipeline_control_signals@[IF_STAGE as int],
        ) {
            add32(before.program_counter, 4)
        } else {
            before.program_counter
        })
        &&& forall|i: int|
            0 <= i < NUM_STAGES ==> stage_committed(
                before.stages@[i],
                before.pipeline_control_signals@[i],
                before.squashes(i),
                sampled[i],
                candidates[i],
                #[trigger] after.stages@[i],
            )
        &&& forall|i: int|
            1 <= i < NUM_STAGES ==> (#[trigger] after.stages@[i]).input_channel.unwrap().held()
                == Some((after.stages@[i - 1].instruction, after.stages@[i - 1].data_out@))
    }

    /// Whether `after` is the core `before` one clock cycle later, a cycle
    /// that ended with the fault `fault` or, where that is none, without
    /// one. `c0` is the core once the stages have sampled
    /// their inputs and found `sampled`, `c4` the core once their logic has
    /// worked with the outcome `candidates`. A fault leaves the core as it
    /// was when the fault occurred.
    pub open spec fn cycle_through(
        before: Self,
        c0: Self,
        c4: Self,
        sampled: Seq<Instruction>,
        candidates: Result<Seq<Seq<u8>>, StageError>,
        after: Self,
        fault: Option<StageError>,
    ) -> bool {
        &&& Self::begun(before, c0, sampled)
        &&& Self::evaluated(c0, c4, candidates)
        &&& match candidates {
            Err(found) => after == c4 && fault == Some(found),
            Ok(outputs) => Self::ended(c4, sampled, outputs, after) && fault.is_none(),
        }
    }

    /// Whether `after` is the core `before` one clock cycle later, a cycle
    /// that ended with the fault `fault` or, where that is none, without
    /// one.
    #[verifier::opaque]
    pub open spec fn cycle(before: Self, after: Self, fault: Option<StageError>) -> bool {
        exists|
            c0: Self,
            c4: Self,
            sampled: Seq<Instruction>,
            candidates: Result<Seq<Seq<u8>>, StageError>,
        | #[trigger]
            Self::cycle_through(before, c0, c4, sampled, candidates, after, fault)
    }

    /// Whether the stages are the five of the RV32I pipeline, in order and
    /// chained by their registers.
    pub fn check_pipeline(&self) -> (r: bool)
        ensures
            r == self.is_rv32i_pipeline(),
    {
        if self.stages.len() != NUM_STAGES {
            return false;
        }
        let mut i: usize = 0;
        while i < NUM_STAGES
            invariant
                i <= NUM_STAGES,
                self.stages@.len() == NUM_STAGES,
                forall|j: int| 0 <= j < i ==> stage_in_place(#[trigger] self.stages@[j], j),
            decreases NUM_STAGES - i,
        {
            let stage = &self.stages[i];
            let logic = if i == IF_STAGE {
                StageLogic::Fetch
            } else if i == ID_STAGE {
                StageLogic::Decode
            } else if i == EX_STAGE {
                StageLogic::Execute
            } else if i == MEM_STAGE {
                StageLogic::Memory
            } else {
                StageLogic::Writeback
            };
            let feeds_next: bool = match stage.output_channel {
                Some(next) => i + 1 < NUM_STAGES && next == i + 1,
                None => i + 1 >= NUM_STAGES,
            };
            if stage.index != i || stage.process_fn != logic || stage.input_channel.is_some() != (i
                > 0) || !feeds_next {
                assert(!stage_in_place(self.stages@[i as int], i as int));
                return false;
            }
            i += 1;
        }
        true
    }

    /// Lets stage `i` sample its input.
    fn sample_stage(&mut self, i: usize) -> (r: Instruction)
        requires
            i < old(self).stages@.len(),
        ensures
            *final(self) == (RiscCore { stages: final(self).stages, ..*old(self) }),
            final(self).stages@.len() == old(self).stages@.len(),
            forall|j: int|
                0 <= j < old(self).stages@.len() && j != i ==> final(self).stages@[j]
                    == old(self).stages@[j],
            stage_sampled(old(self).stages@[i as int], final(self).stages@[i as int], r),
    {
        let found = match &mut self.stages[i].input_channel {
            Some(register) => register.try_recv(),
            None => None,
        };
        match found {
            Some(payload) => {
                self.stages[i].data_in = payload.data;
                payload.instruction
            },
            None => {
                self.stages[i].data_in = PipelineData(Vec::new());
                Instruction(0)
            },
        }
    }

    /// Starts a cycle: releases the wires that leave the stages and lets
    /// every stage sample its input.
    #[verifier::rlimit(40)]
    fn begin_cycle(&mut self) -> (r: Vec<Instruction>)
        requires
            old(self).well_formed(),
            old(self).is_rv32i_pipeline(),
        ensures
            Self::begun(*old(self), *final(self), r@),
    {
        let mut sampled: Vec<Instruction> = Vec::with_capacity(NUM_STAGES);
        let mut i: usize = 0;
        while i < NUM_STAGES
            invariant
                i <= NUM_STAGES,
                old(self).well_formed(),
                old(self).is_rv32i_pipeline(),
                *self == (RiscCore { cdb: self.cdb, stages: self.stages, ..*old(self) }),
                self.well_formed(),
                self.stages@.len() == NUM_STAGES,
                self.cdb.same_wiring(&old(self).cdb),
                forall|from: int, to: int|
                    0 <= from < self.num_stages && 0 <= to < self.num_stages ==> (
                    #[trigger] self.cdb@[from][to]) == (if from < i {
                        None
                    } else {
                        old(self).cdb@[from][to]
                    }),
                sampled@.len() == i,
                forall|j: int|
                    0 <= j < i ==> stage_sampled(
                        old(self).stages@[j],
                        #[trigger] self.stages@[j],
                        sampled@[j],
                    ),
                forall|j: int|
                    i <= j < NUM_STAGES ==> (#[trigger] self.stages@[j]) == old(self).stages@[j],
            decreases NUM_STAGES - i,
        {
            self.cdb.clear(i);
            let instruction = self.sample_stage(i);
            sampled.push(instruction);
            i += 1;
        }
        sampled
    }

    /// Whether the core can run the logic of a stage: the bus is wide enough
    /// for the five stages, and every wire that the logic reads can be read.
    pub open spec fn logic_ready(&self, logic: StageLogic) -> bool {
        &&& self.well_formed()
        &&& self.num_stages > WB_STAGE
        &&& match logic {
            StageLogic::Fetch => self.cdb.readable(MEM_STAGE as int, IF_STAGE as int),
            StageLogic::Decode => self.cdb.readable(MEM_STAGE as int, ID_STAGE as int)
                && self.cdb.readable(WB_STAGE as int, ID_STAGE as int),
            StageLogic::Execute => self.cdb.readable(MEM_STAGE as int, EX_STAGE as int)
                && self.cdb.readable(WB_STAGE as int, EX_STAGE as int),
            StageLogic::Memory => true,
            StageLogic::Writeback => true,
        }
    }

    /// Whether `after` is the core `before` once the logic of one stage has
    /// worked on `data_in` with the outcome `out`.
    pub open spec fn logic_step(
        logic: StageLogic,
        before: Self,
        data_in: Seq<u8>,
        after: Self,
        out: Result<Seq<u8>, StageError>,
    ) -> bool {
        match logic {
            StageLogic::Fetch => fetch_step(before, after, out),
            StageLogic::Decode => decode_step(before, data_in, after, out),
            StageLogic::Execute => after == before && out == Ok::<Seq<u8>, StageError>(
                execute_step(before, data_in),
            ),
            StageLogic::Memory => memory_step(before, data_in, after, out),
            StageLogic::Writeback => out.is_ok() && writeback_step(
                before,
                data_in,
                after,
                out.unwrap(),
            ),
        }
    }

    /// Runs the combinational logic of one stage on `data_in`.
    pub fn run_logic(&mut self, logic: StageLogic, data_in: &PipelineData) -> (r: Result<
        PipelineData,
        StageError,
    >)
        requires
            old(self).logic_ready(logic),
        ensures
            Self::logic_step(logic, *old(self), data_in@, *final(self), outcome_view(r)),
            final(self).well_formed(),
    {
        match logic {
            StageLogic::Fetch => rv32_mcu_fetch_stage(data_in, self),
            StageLogic::Decode => rv32_mcu_decode_stage(data_in, self),
            StageLogic::Execute => Ok(rv32_mcu_execute_stage(data_in, self)),
            StageLogic::Memory => rv32_mcu_mem_stage(data_in, self),
            StageLogic::Writeback => Ok(rv32_mcu_commit_stage(data_in, self)),
        }
    }

    /// Runs the combinational logic of the five stages, from writeback back
    /// to fetch, and returns what each computed, by index.
    #[verifier::rlimit(50)]
    fn evaluate(&mut self) -> (r: Result<Vec<PipelineData>, StageError>)
        requires
            old(self).well_formed(),
            old(self).is_rv32i_pipeline(),
        ensures
            Self::evaluated(*old(self), *final(self), outputs_view(r)),
            final(self).well_formed(),
            final(self).is_rv32i_pipeline(),
            final(self).stages == old(self).stages,
            r.is_ok() ==> final(self).cdb.readable(MEM_STAGE as int, ID_STAGE as int),
    {
        let ghost c0 = *self;
        let wb_in = self.stages[WB_STAGE].data_in.clone();
        let wb_logic = self.stages[WB_STAGE].process_fn;
        let wb_out = match self.run_logic(wb_logic, &wb_in) {
            Ok(out) => out,
            Err(fault) => {
                return Err(fault);
            },
        };
        let ghost c1 = *self;
        proof {
            lemma_writeback_step(c0, wb_in@, c1, wb_out@);
        }
        let mem_in = self.stages[MEM_STAGE].data_in.clone();
        let mem_logic = self.stages[MEM_STAGE].process_fn;
        let mem_result = self.run_logic(mem_logic, &mem_in);
        let ghost c2 = *self;
        proof {
            lemma_memory_step(c1, mem_in@, c2, outcome_view(mem_result));
        }
        let ghost mem_view = outcome_view(mem_result);
        let mem_out = match mem_result {
            Ok(out) => out,
            Err(fault) => {
                proof {
                    assert(Self::evaluated_through(
                        c0,
                        c1,
                        c2,
                        c2,
                        c2,
                        wb_out@,
                        mem_view,
                        mem_view,
                        mem_view,
                        Err::<Seq<Seq<u8>>, StageError>(fault),
                    ));
                }
                return Err(fault);
            },
        };
        proof {
            let e = ExMem::from_bytes(mem_in@);
            lemma_lanes_after_memory(
                c0.cdb@,
                c1.cdb@,
                c2.cdb@,
                commit_of(MemWb::from_bytes(wb_in@)).to_bytes(),
                (branch_signal(e).to_bytes(), memory_forward(e).to_bytes()),
            );
        }
        let ex_in = self.stages[EX_STAGE].data_in.clone();
        let ex_logic = self.stages[EX_STAGE].process_fn;
        let ex_out = match self.run_logic(ex_logic, &ex_in) {
            Ok(out) => out,
            Err(fault) => {
                return Err(fault);
            },
        };
        let id_in = self.stages[ID_STAGE].data_in.clone();
        let id_logic = self.stages[ID_STAGE].process_fn;
        let id_result = self.run_logic(id_logic, &id_in);
        let ghost c3 = *self;
        proof {
            lemma_decode_step(c2, id_in@, c3, outcome_view(id_result));
        }
        let ghost id_view = outcome_view(id_result);
        let id_out = match id_result {
            Ok(out) => out,
            Err(fault) => {
                proof {
                    assert(Self::evaluated_through(
                        c0,
                        c1,
                        c2,
                        c3,
                        c3,
                        wb_out@,
                        mem_view,
                        id_view,
                        id_view,
                        Err::<Seq<Seq<u8>>, StageError>(fault),
                    ));
                }
                return Err(fault);
            },
        };
        let if_in = self.stages[IF_STAGE].data_in.clone();
        let if_logic = self.stages[IF_STAGE].process_fn;
        let if_result = self.run_logic(if_logic, &if_in);
        proof {
            lemma_fetch_step(c3, *self, outcome_view(if_result));
        }
        let ghost if_view = outcome_view(if_result);
        let if_out = match if_result {
            Ok(out) => out,
            Err(fault) => {
                proof {
                    assert(Self::evaluated_through(
                        c0,
                        c1,
                        c2,
                        c3,
                        *self,
                        wb_out@,
                        mem_view,
                        id_view,
                        if_view,
                        Err::<Seq<Seq<u8>>, StageError>(fault),
                    ));
                }
                return Err(fault);
            },
        };
        let mut outputs: Vec<PipelineData> = Vec::with_capacity(NUM_STAGES);
        let ghost expected = seq![if_out@, id_out@, ex_out@, mem_out@, wb_out@];
        outputs.push(if_out);
        outputs.push(id_out);
        outputs.push(ex_out);
        outputs.push(mem_out);
        outputs.push(wb_out);
        proof {
            assert(outputs_view(Ok::<Vec<PipelineData>, StageError>(outputs)).unwrap()
                =~= expected);
            assert(Self::evaluated_through(
                c0,
                c1,
                c2,
                c3,
                *self,
                expected[4],
                Ok::<Seq<u8>, StageError>(expected[3]),
                Ok::<Seq<u8>, StageError>(expected[1]),
                Ok::<Seq<u8>, StageError>(expected[0]),
                Ok::<Seq<Seq<u8>>, StageError>(expected),
            ));
        }
        Ok(outputs)
    }

    /// Ends the cycle for stage `i`: the stage commits as its control lines
    /// allow and fills the register of the next stage.
    #[verifier::rlimit(40)]
    fn finish_stage(
        &mut self,
        i: usize,
        squash: bool,
        sampled: Instruction,
        candidate: PipelineData,
    )
        requires
            old(self).well_formed(),
            old(self).stages@.len() == NUM_STAGES,
            i < NUM_STAGES,
            forall|j: int|
                0 <= j < NUM_STAGES ==> stage_in_place(#[trigger] old(self).stages@[j], j),
            squash ==> i == EX_STAGE,
            i + 1 < NUM_STAGES ==> old(self).stages@[i + 1].input_channel.unwrap().held().is_none(),
        ensures
            *final(self) == (RiscCore {
                stages: final(self).stages,
                program_counter: final(self).program_counter,
                ..*old(self)
            }),
            final(self).stages@.len() == NUM_STAGES,
            final(self).program_counter == (if i == IF_STAGE && commits(
                old(self).pipeline_control_signals@[i as int],
            ) {
                add32(old(self).program_counter, 4)
            } else {
                old(self).program_counter
            }),
            stage_committed(
                old(self).stages@[i as int],
                old(self).pipeline_control_signals@[i as int],
                squash,
                sampled,
                candidate@,
                final(self).stages@[i as int],
            ),
            final(self).stages@[i as int].input_channel
                == old(self).stages@[i as int].input_channel,
            forall|j: int|
                0 <= j < NUM_STAGES && j != i && j != i + 1 ==> (#[trigger] final(self).stages@[j])
                    == old(self).stages@[j],
            i + 1 < NUM_STAGES ==> {
                let next = final(self).stages@[i + 1];
                &&& next == (PipelineStage {
                    input_channel: next.input_channel,
                    ..old(self).stages@[i + 1]
                })
                &&& next.input_channel.is_some()
                &&& next.input_channel.unwrap().held() == Some(
                    (
                        final(self).stages@[i as int].instruction,
                        final(self).stages@[i as int].data_out@,
                    ),
                )
            },
    {
        let signals = self.pipeline_control_signals[i];
        if signals.reset || squash {
            let size: usize = self.stages[i].size_out;
            self.stages[i].data_out = PipelineData::zeroed(size);
            self.stages[i].instruction = Instruction(0);
        } else if signals.enable {
            self.stages[i].data_out = candidate;
            self.stages[i].instruction = sampled;
            if i == IF_STAGE {
                self.program_counter = wrapping_sum(self.program_counter, 4);
            }
        }
        if i == IF_STAGE && self.stages[i].data_out.size() >= 4 {
            let word: u32 = self.stages[i].data_out.get_u32(0);
            self.stages[i].instruction = Instruction(word);
        }
        let cycle: u64 = self.stages[i].clock_cycle;
        if cycle < u64::MAX {
            self.stages[i].clock_cycle = cycle + 1;
        }
        if i + 1 < NUM_STAGES {
            let payload = PipelinePayload {
                instruction: self.stages[i].instruction,
                data: self.stages[i].data_out.clone(),
            };
            match &mut self.stages[i + 1].input_channel {
                Some(register) => {
                    register.send(payload);
                },
                None => {},
            }
        }
    }

    /// Ends a cycle: every stage commits as its control lines allow and
    /// fills the register of the next stage.
    #[verifier::spinoff_prover]
    #[verifier::rlimit(50)]
    fn end_cycle(&mut self, sampled: Vec<Instruction>, candidates: Vec<PipelineData>)
        requires
            old(self).well_formed(),
            old(self).is_rv32i_pipeline(),
            old(self).cdb.readable(MEM_STAGE as int, ID_STAGE as int),
            forall|j: int|
                1 <= j < NUM_STAGES ==> (#[trigger] old(self).stages@[j]).input_channel.unwrap().held().is_none(),
            sampled@.len() == NUM_STAGES,
            candidates@.len() == NUM_STAGES,
        ensures
            Self::ended(
                *old(self),
                sampled@,
                Seq::new(NUM_STAGES as nat, |i: int| candidates@[i]@),
                *final(self),
            ),
    {
        proof {
            reveal(RiscCore::squashing);
        }
        let squashing: bool = BranchSignal::parse(&self.cdb.pull(MEM_STAGE, ID_STAGE)).taken();
        let mut i: usize = 0;
        while i < NUM_STAGES
            invariant
                i <= NUM_STAGES,
                sampled@.len() == NUM_STAGES,
                candidates@.len() == NUM_STAGES,
                old(self).well_formed(),
                old(self).is_rv32i_pipeline(),
                squashing == old(self).squashing(),
                forall|j: int|
                    i < j < NUM_STAGES ==> (
                    #[trigger] self.stages@[j]).input_channel.unwrap().held().is_none(),
                *self == (RiscCore {
                    stages: self.stages,
                    program_counter: self.program_counter,
                    ..*old(self)
                }),
                self.stages@.len() == NUM_STAGES,
                self.program_counter == (if i > 0 && commits(
                    old(self).pipeline_control_signals@[IF_STAGE as int],
                ) {
                    add32(old(self).program_counter, 4)
                } else {
                    old(self).program_counter
                }),
                forall|j: int|
                    0 <= j < NUM_STAGES ==> stage_in_place(#[trigger] self.stages@[j], j),
                forall|j: int|
                    0 <= j < i ==> stage_committed(
                        old(self).stages@[j],
                        old(self).pipeline_control_signals@[j],
                        old(self).squashes(j),
                        sampled@[j],
                        candidates@[j]@,
                        #[trigger] self.stages@[j],
                    ),
                forall|j: int|
                    1 <= j <= i && j < NUM_STAGES ==> (
                    #[trigger] self.stages@[j]).input_channel.unwrap().held() == Some(
                        (self.stages@[j - 1].instruction, self.stages@[j - 1].data_out@),
                    ),
                forall|j: int|
                    i <= j < NUM_STAGES ==> (#[trigger] self.stages@[j]) == (PipelineStage {
                        input_channel: self.stages@[j].input_channel,
                        ..old(self).stages@[j]
                    }),
            decreases NUM_STAGES - i,
        {
            let candidate = candidates[i].clone();
            let ghost mid = *self;
            self.finish_stage(i, i == EX_STAGE && squashing, sampled[i], candidate);
            proof {
                lemma_committed_whatever_input(
                    old(self).stages@[i as int],
                    mid.stages@[i as int],
                    old(self).pipeline_control_signals@[i as int],
                    old(self).squashes(i as int),
                    sampled@[i as int],
                    candidates@[i as int]@,
                    self.stages@[i as int],
                );
                assert forall|j: int| 0 <= j < i implies self.stages@[j] == mid.stages@[j] by {}
                assert forall|j: int| i + 1 < j < NUM_STAGES implies self.stages@[j]
                    == mid.stages@[j] by {}
            }
            i += 1;
        }
    }

    /// Whether `after` is the core `before` after `n` cycles without a
    /// fault.
    pub open spec fn reaches(before: Self, after: Self, n: nat) -> bool
        decreases n,
    {
        if n == 0 {
            after == before
        } else {
            exists|mid: Self|
                Self::reaches(before, mid, (n - 1) as nat) && #[trigger] Self::cycle(
                    mid,
                    after,
                    None,
                )
        }
    }

    /// Whether `after` is the core `before` after the run that `report`
    /// tells of: so many cycles without a fault, and then, if the report
    /// names a fault, one more cycle that ended with it.
    pub open spec fn ran(before: Self, after: Self, report: RunReport) -> bool {
        match report.fault {
            None => Self::reaches(before, after, report.cycles as nat),
            Some(fault) => exists|mid: Self|
                Self::reaches(before, mid, report.cycles as nat) && #[trigger] Self::cycle(
                    mid,
                    after,
                    Some(fault),
                ),
        }
    }

    /// Runs the core for `num_clock_cycles` cycles, or, where no number is
    /// given, for as many cycles as a `u64` can count. The run ends early
    /// with the first fault of a stage. A core whose stages are not the five
    /// of the RV32I pipeline is refused and left as it is.
    #[verifier::rlimit(40)]
    pub fn run(&mut self, num_clock_cycles: Option<u64>) -> (r: Result<RunReport, CoreError>)
        requires
            old(self).well_formed(),
        ensures
            final(self).well_formed(),
            match r {
                Err(e) => e == CoreError::NotRunnable && !old(self).is_rv32i_pipeline()
                    && *final(self) == *old(self),
                Ok(report) => {
                    &&& old(self).is_rv32i_pipeline()
                    &&& final(self).is_rv32i_pipeline()
                    &&& Self::ran(*old(self), *final(self), report)
                    &&& report.fault.is_none() ==> report.cycles == (match num_clock_cycles {
                        Some(n) => n,
                        None => u64::MAX,
                    })
                    &&& report.fault.is_some() ==> report.cycles < (match num_clock_cycles {
                        Some(n) => n,
                        None => u64::MAX,
                    })
                },
            },
    {
        if !self.check_pipeline() {
            return Err(CoreError::NotRunnable);
        }
        let limit: u64 = match num_clock_cycles {
            Some(n) => n,
            None => u64::MAX,
        };
        let mut done: u64 = 0;
        while done < limit
            invariant
                done <= limit,
                limit == (match num_clock_cycles {
                    Some(n) => n,
                    None => u64::MAX,
                }),
                self.well_formed(),
                self.is_rv32i_pipeline(),
                old(self).is_rv32i_pipeline(),
                Self::reaches(*old(self), *self, done as nat),
            decreases limit - done,
        {
            let ghost mid = *self;
            match self.tick() {
                Ok(()) => {
                    done += 1;
                    assert(Self::reaches(*old(self), mid, (done - 1) as nat) && Self::cycle(
                        mid,
                        *self,
                        None,
                    ));
                },
                Err(fault) => {
                    assert(Self::reaches(*old(self), mid, done as nat) && Self::cycle(
                        mid,
                        *self,
                        Some(fault),
                    ));
                    return Ok(RunReport { cycles: done, fault: Some(fault) });
                },
            }
        }
        Ok(RunReport { cycles: done, fault: None })
    }

    /// Advances the core by one clock cycle. A fault of a stage ends the
    /// cycle at once: the stages before it in the pipeline do not work and
    /// nothing is committed. `cycle` says all that a cycle does; of a cycle
    /// without a fault the last two clauses spell out what it makes of the
    /// register file and of the program counter.
    #[verifier::rlimit(40)]
    pub fn tick(&mut self) -> (r: Result<(), StageError>)
        requires
            old(self).well_formed(),
            old(self).is_rv32i_pipeline(),
        ensures
            Self::cycle(*old(self), *final(self), fault_of(r)),
            final(self).well_formed(),
            final(self).is_rv32i_pipeline(),
            r.is_ok() ==> final(self).registers@ == committed(
                old(self).registers@,
                commit_of(MemWb::from_bytes(input_of(*old(self), WB_STAGE as int))),
            ),
            r.is_ok() ==> final(self).program_counter == (if commits(
                old(self).pipeline_control_signals@[IF_STAGE as int],
            ) {
                add32(
                    fetch_address(
                        old(self).program_counter,
                        branch_signal(ExMem::from_bytes(input_of(*old(self), MEM_STAGE as int))),
                    ),
                    4,
                )
            } else {
                fetch_address(
                    old(self).program_counter,
                    branch_signal(ExMem::from_bytes(input_of(*old(self), MEM_STAGE as int))),
                )
            }),
    {
        proof {
            reveal(RiscCore::cycle);
        }
        let ghost before = *self;
        let sampled = self.begin_cycle();
        let ghost c0 = *self;
        let evaluated = self.evaluate();
        let ghost c4 = *self;
        match evaluated {
            Err(fault) => {
                proof {
                    assert(Self::cycle_through(
                        before,
                        c0,
                        c4,
                        sampled@,
                        Err::<Seq<Seq<u8>>, StageError>(fault),
                        c4,
                        Some(fault),
                    ));
                }
                Err(fault)
            },
            Ok(candidates) => {
                let ghost outputs = Seq::new(NUM_STAGES as nat, |i: int| candidates@[i]@);
                proof {
                    assert(outputs_view(evaluated).unwrap() =~= outputs);
                }
                let ghost found = sampled@;
                self.end_cycle(sampled, candidates);
                proof {
                    assert(Self::cycle_through(
                        before,
                        c0,
                        c4,
                        found,
                        Ok::<Seq<Seq<u8>>, StageError>(outputs),
                        *self,
                        None,
                    ));
                    lemma_cycle_registers(before, *self);
                    lemma_cycle_program_counter(before, *self);
                }
                Ok(())
            },
        }
    }
}

/// The fault that a cycle ended with, if it ended with one.
pub open spec fn fault_of(r: Result<(), StageError>) -> Option<StageError> {
    match r {
        Ok(_) => None,
        Err(fault) => Some(fault),
    }
}

/// How a run ended: the number of cycles completed, and the fault that ended
/// the run if one did.
#[derive(Debug, Clone, Copy, PartialEq, Eq, Structural)]
pub struct RunReport {
    pub cycles: u64,
    pub fault: Option<StageError>,
}

/// What the driver of a paced clock does at the end of a cycle.
#[derive(Debug, Clone, Copy, PartialEq, Eq, Structural)]
pub enum Pacing {
    /// The clock is not paced, or the logic took exactly one period.
    OnTime,
    /// The logic was faster than the clock: sleep for so many nanoseconds.
    Sleep(u128),
    /// The logic was slower than the clock by so many nanoseconds: warn and
    /// go on.
    Overrun(u128),
}

/// What is left of a clock period after the logic of a stage has taken
/// `elapsed` nanoseconds, or by how much the logic has overrun it.
pub open spec fn pacing_of(clock_period: Option<u128>, elapsed: u128) -> Pacing {
    match clock_period {
        None => Pacing::OnTime,
        Some(period) => if elapsed < period {
            Pacing::Sleep((period - elapsed) as u128)
        } else if elapsed > period {
            Pacing::Overrun((elapsed - period) as u128)
        } else {
            Pacing::OnTime
        },
    }
}

/// Decides how the driver paces the clock at the end of a cycle.
pub fn clock_pacing(clock_period: Option<u128>, elapsed: u128) -> (r: Pacing)
    ensures
        r == pacing_of(clock_period, elapsed),
{
    match clock_period {
        None => Pacing::OnTime,
        Some(period) => if elapsed < period {
            Pacing::Sleep(period - elapsed)
        } else if elapsed > period {
            Pacing::Overrun(elapsed - period)
        } else {
            Pacing::OnTime
        },
    }
}

/// What the logic of the stages returned, with every payload as a sequence of
/// bytes.
pub open spec fn outputs_view(r: Result<Vec<PipelineData>, StageError>) -> Result<
    Seq<Seq<u8>>,
    StageError,
> {
    match r {
        Ok(outputs) => Ok(Seq::new(outputs@.len(), |i: int| outputs@[i]@)),
        Err(fault) => Err(fault),
    }
}

/// Once writeback and memory have driven their wires on a bus that is at
/// least five stages wide, the five wires that fetch, decode and execute
/// read are driven.
pub proof fn lemma_lanes_after_memory(
    lanes: Seq<Seq<Option<Seq<u8>>>>,
    after_writeback: Seq<Seq<Option<Seq<u8>>>>,
    after_memory: Seq<Seq<Option<Seq<u8>>>>,
    commit: Seq<u8>,
    signals: (Seq<u8>, Seq<u8>),
)
    requires
        lanes.len() > WB_STAGE,
        forall|from: int| 0 <= from < lanes.len() ==> (#[trigger] lanes[from]).len() == lanes.len(),
        after_writeback == driven(
            driven(lanes, WB_STAGE as int, ID_STAGE as int, commit),
            WB_STAGE as int,
            EX_STAGE as int,
            commit,
        ),
        after_memory == driven(
            driven(
                driven(after_writeback, MEM_STAGE as int, IF_STAGE as int, signals.0),
                MEM_STAGE as int,
                ID_STAGE as int,
                signals.0,
            ),
            MEM_STAGE as int,
            EX_STAGE as int,
            signals.1,
        ),
    ensures
        after_memory[WB_STAGE as int][ID_STAGE as int] == Some(commit),
        after_memory[WB_STAGE as int][EX_STAGE as int] == Some(commit),
        after_memory[MEM_STAGE as int][IF_STAGE as int] == Some(signals.0),
        after_memory[MEM_STAGE as int][ID_STAGE as int] == Some(signals.0),
        after_memory[MEM_STAGE as int][EX_STAGE as int] == Some(signals.1),
{
}

} // verus!
