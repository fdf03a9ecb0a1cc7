//! A step-level execution tracer for a stack-based virtual machine.
//!
//! The tracer wraps an execution engine and records, for every instruction
//! the engine executes during a call or contract creation, a step record:
//! program counter, opcode, gas remaining, gas cost, memory, stack and the
//! storage of the account whose context is executing.  The engine itself —
//! opcode semantics, gas-cost tables, account state — is a collaborator whose
//! observable behaviour is held here as plain data (see [`machine`] and
//! [`engine`]); the tracer's own duties — the trace loop, call and create
//! set-up, exit-reason translation, and the host-capability pass-through —
//! are verified.

pub mod engine;
pub mod exit;
pub mod laws;
pub mod machine;
pub mod model;
pub mod opcode;
pub mod tracer;
