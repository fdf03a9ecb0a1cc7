//! Terminal classifications of a finished run, and the capture shape in
//! which the engine reports the outcome of an operation.

use vstd::prelude::*;

verus! {

/// The ways a run can finish successfully.
#[derive(Clone, Copy, Debug, PartialEq, Eq, Structural)]
pub enum ExitSucceed {
    /// The machine encountered an explicit stop.
    Stopped,
    /// The machine returned data.
    Returned,
    /// The executing account destroyed itself.
    Suicided,
}

/// The ordinary error classifications an engine can report.
#[derive(Clone, Copy, Debug, PartialEq, Eq, Structural)]
pub enum ExitError {
    /// Gas was exhausted.
    OutOfGas,
    /// The operand stack had too few items for the instruction.
    StackUnderflow,
    /// The operand stack grew past its limit.
    StackOverflow,
    /// A jump targeted an invalid destination.
    InvalidJump,
    /// The call-stack nesting limit was reached.
    CallTooDeep,
    /// An explicitly invalid instruction was executed.
    DesignatedInvalid,
    /// Any other engine-defined error, carried as a code.
    Other(u64),
}

/// The fatal classifications: defects rather than ordinary failures.
#[derive(Clone, Copy, Debug, PartialEq, Eq, Structural)]
pub enum ExitFatal {
    /// The engine asked for an operation the host does not support.
    NotSupported,
    /// A single step yielded a host-intervention trap that was not resolved.
    UnhandledInterrupt,
    /// Any other engine-defined fatal condition, carried as a code.
    Other(u64),
}

/// The terminal classification of a finished run.
#[derive(Clone, Copy, Debug, PartialEq, Eq, Structural)]
pub enum ExitReason {
    /// The run finished normally.
    Succeed(ExitSucceed),
    /// The run reverted; its output is still meaningful.
    Revert,
    /// The run failed with an ordinary error.
    Error(ExitError),
    /// The run failed with a fatal condition.
    Fatal(ExitFatal),
}

impl ExitReason {
    /// Whether this reason is a success.
    pub open spec fn is_succeed(self) -> bool {
        matches!(self, ExitReason::Succeed(_))
    }

    /// Whether the run's produced output accompanies this reason: it does on
    /// success and on revert, and is dropped on error and fatal outcomes.
    pub open spec fn keeps_output(self) -> bool {
        self.is_succeed() || self == ExitReason::Revert
    }
}

/// The outcome of an operation that either finishes with a value or yields
/// a trap asking the host to intervene.  The tracer resolves nested calls
/// synchronously, so every capture it returns is an `Exit`.
#[derive(Debug, PartialEq, Eq, Structural)]
pub enum Capture<T> {
    /// The operation ran to completion.
    Exit(T),
    /// The operation requires host intervention before it can continue.
    Trap,
}

} // verus!
