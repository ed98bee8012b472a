//! A bytecode machine for scripts.
//!
//! [`vm`] is where a program is entered from outside, [`frame`] runs its
//! instructions, and [`host`] is what the machine asks of whoever embeds it.
//! [`machine`] holds the state of a run and its model; every other module says
//! what it does as a function from one model to the next. [`laws`] states what
//! follows for the machine as a whole, and the modules whose names end in `laws`
//! what its parts are for: [`control_laws`] and [`step_laws`] of regions, loops
//! and branches, [`call_laws`] and [`run_laws`] of calls, [`chain_laws`] and
//! [`write_laws`] of elements and properties, [`value_laws`] and
//! [`variable_laws`] of values and variables, [`encoding_laws`] of how
//! instructions are written, [`host_laws`] of what the host is asked and told,
//! [`trace_laws`] and [`shortcut_laws`] of tracing and compiled code.
use vstd::prelude::*;

pub mod text;
pub mod position;
pub mod value;
pub mod error;
pub mod heap;
pub mod dict;
pub mod scope;
pub mod stack;
pub mod tag;
pub mod bytecode;
pub mod program;
pub mod arith;
pub mod engine;
pub mod host;
pub mod memo;
pub mod machine;
pub mod assign;
pub mod ops;
pub mod site;
pub mod debug;
pub mod call;
pub mod chain;
pub mod operate;
pub mod element;
pub mod frame;
pub mod vm;
pub mod callback;
pub mod ab_gate;
pub mod counters;
pub mod jit_state;
pub mod merge;
pub mod resume;
pub mod bindings;
pub mod paths;
pub mod jitcodes;
pub mod residual;
pub mod laws;
pub mod control_laws;
pub mod step_laws;
pub mod call_laws;
pub mod chain_laws;
pub mod write_laws;
pub mod value_laws;
pub mod variable_laws;
pub mod encoding_laws;
pub mod host_laws;
pub mod trace_laws;
pub mod shortcut_laws;
pub mod run_laws;

verus! {

} // verus!
