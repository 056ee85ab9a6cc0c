//! The core of a WebAssembly interpreter.
//!
//! * `value`, `numeric`, `float`: typed values, integer arithmetic, and what
//!   of floating point is decided on bit patterns.
//! * `memory`, `table`, `global`: the instances that a module's code works on.
//! * `address`, `func`, `module`, `store`: the store, which owns every
//!   instance, and the addresses that resolve to its slots.
//! * `decoded`, `loader`, `fault`: a decoded module, its loading into the
//!   store, and when and how the loading fails.
//! * `init_expr`: constant expressions in their binary form.
//! * `inst`, `stack`: instructions, and the one stack of values, labels and
//!   activations.
//! * `semantics`: what each instruction does, as functions on mathematical
//!   values.
//! * `executor` and the `exec_*` modules: the executor, whose steps are proved
//!   to do what `semantics` says; and the driver that runs a function to its
//!   end.
//! * `interceptor`, `host`: what the embedder supplies.
//! * `theorems`, `balance`: what holds of the interpreter as a whole, of its
//!   instructions and of a whole invocation.
//! * `debugger`: the choice of the entry function, and the debugger's
//!   interfaces.

pub mod address;
pub mod balance;
pub mod debugger;
pub mod decoded;
pub mod exec_call;
pub mod exec_control;
pub mod exec_memory;
pub mod exec_numeric;
pub mod executor;
pub mod fault;
pub mod float;
pub mod func;
pub mod global;
pub mod host;
pub mod init_expr;
pub mod inst;
pub mod interceptor;
pub mod loader;
pub mod memory;
pub mod module;
pub mod numeric;
pub mod semantics;
pub mod stack;
pub mod store;
pub mod table;
pub mod theorems;
pub mod value;
