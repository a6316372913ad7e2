//! A cycle-driven model of a small RV32I core.
//!
//! The core is an in-order pipeline of five stages (fetch, decode, execute,
//! memory, writeback). A stage hands its output to the next through a
//! one-slot register (`pipeline_stage`, `payload`), and later stages send
//! results back to earlier ones within a cycle over the common data bus
//! (`wire`, `cdb`). Loads, stores and fetches go to direct memories
//! (`mcu_cache`) and, past them, to the devices behind the memory management
//! unit (`memory_management_unit`, `uart`, `device`).
//!
//! The logic of each stage lives in the module of its name. `clock` advances
//! the whole core by one cycle, `elf` loads a program, and `mcu_core` builds
//! the standard microcontroller.
//!
//! `laws` states what holds of every cycle and of every run. `dataflow` reads
//! a cycle as a function on what the pipeline holds; `squash` proves from it
//! that the instructions behind a taken branch leave no trace in a run, and
//! `programs` follows small programs through the pipeline to the registers
//! and bytes they leave behind.

pub mod cache;
pub mod cdb;
pub mod clock;
pub mod dataflow;
pub mod decode;
pub mod device;
pub mod elf;
pub mod execute;
pub mod fetch;
pub mod hash_index;
pub mod laws;
pub mod mcu_cache;
pub mod mcu_core;
pub mod memory;
pub mod memory_management_unit;
pub mod payload;
pub mod pipeline_stage;
pub mod programs;
pub mod risc_soc;
pub mod risc_word;
pub mod squash;
pub mod uart;
pub mod wire;
pub mod writeback;
