//! The observable behaviour of one machine run, held as plain data.
//!
//! The engine owns opcode semantics, gas-cost tables and gas accounting;
//! none of that is re-implemented here.  What the tracer reads of a run —
//! the instruction inspected before each step, the cost-table and gasometer
//! outcomes, the reported position, the memory and stack snapshots, and the
//! effect of executing the step — is carried per instruction as a
//! [`StepEvent`].  A [`Program`] bundles the code bytes with that behaviour
//! and with the machine's terminal report once its instructions are
//! exhausted.

use vstd::prelude::*;

use crate::exit::{ExitError, ExitReason};
use crate::opcode::OpId;

verus! {

/// An explicit transfer of value accompanying a call.
#[derive(Clone, Copy, Debug, PartialEq, Eq, Structural)]
pub struct Transfer {
    /// The account the value leaves.
    pub source: u64,
    /// The value moved.
    pub value: u64,
}

/// How the address of a created contract is derived.
#[derive(Clone, Copy, Debug, PartialEq, Eq, Structural)]
pub enum CreateScheme {
    /// The legacy scheme: the address is a function of the caller and the
    /// caller's nonce alone.
    Legacy {
        /// The creating account.
        caller: u64,
    },
}

/// The execution context of one run.
#[derive(Clone, Copy, Debug, PartialEq, Eq, Structural)]
pub struct Context {
    /// The account whose code is executing.
    pub address: u64,
    /// The account that invoked the run.
    pub caller: u64,
    /// The value apparent to the run.
    pub apparent_value: u64,
}

/// A nested call the engine requests from its host while executing one
/// instruction.  The engine resolves the callee's code itself; the run it
/// constructs for it is carried here.
pub struct CallEvent {
    /// The account whose code is called.
    pub target: u64,
    /// The explicit transfer, if any; without one the call is value-less
    /// and its caller is the callee itself.
    pub transfer: Option<Transfer>,
    /// The input handed to the callee.
    pub input: Vec<u8>,
    /// The callee's code and behaviour, as the engine resolves it.
    pub program: Program,
    /// The gas made available, or unbounded when absent.
    pub target_gas: Option<u64>,
    /// Whether the nested scope forbids mutation.
    pub is_static: bool,
}

/// A nested contract creation the engine requests from its host while
/// executing one instruction.
pub struct CreateEvent {
    /// The creating account.
    pub caller: u64,
    /// The derivation of the created address.
    pub scheme: CreateScheme,
    /// The value endowed.
    pub value: u64,
    /// The initialization run: its code and its behaviour.
    pub init: Program,
    /// The gas made available, or unbounded when absent.
    pub target_gas: Option<u64>,
}

/// The effect of executing one inspected instruction.
pub enum StepOutcome {
    /// The run continues with its next instruction.
    Continue,
    /// The run reaches a terminal state.
    Exit(ExitReason),
    /// The step yields a host-intervention trap that is not resolved
    /// inline; the tracer reports it as fatal.
    Trap,
    /// The step performs a nested call through the host, then continues.
    Call(CallEvent),
    /// The step performs a nested creation through the host, then
    /// continues.
    Create(CreateEvent),
}

/// What the engine reports of one instruction: the inspection made before
/// the step, the cost computations, and the step's effect.
pub struct StepEvent {
    /// The instruction tag inspection yields.
    pub op: OpId,
    /// The operand stack at inspection, bottom first.
    pub stack: Vec<u64>,
    /// The linear memory at inspection.
    pub memory: Vec<u8>,
    /// The gas remaining before the instruction executes, as the engine's
    /// gasometer reports it.
    pub gas_left: u64,
    /// The cost-table outcome for the instruction against the current
    /// stack and context.
    pub table_cost: Result<u64, ExitError>,
    /// The gasometer's realized cost given the table cost, checked only
    /// once the table cost succeeded.
    pub reduced_cost: Result<u64, ExitError>,
    /// The reported program counter, or the terminal reason positioning
    /// fails with.
    pub position: Result<u64, ExitReason>,
    /// The effect of executing the instruction.
    pub outcome: StepOutcome,
}

/// One program as the engine runs it: its code bytes, its per-instruction
/// behaviour, the terminal reason its machine reports once no instruction
/// remains, and its return buffer.
pub struct Program {
    /// The code bytes.
    pub code: Vec<u8>,
    /// The behaviour of each instruction executed, in order.
    pub steps: Vec<StepEvent>,
    /// The reason position lookup reports once inspection yields no
    /// instruction.  Inspection yielding nothing while positioning still
    /// succeeds cannot be represented: the two signals never diverge.
    pub end: ExitReason,
    /// The machine's produced return value.
    pub ret: Vec<u8>,
}

/// The mathematical reading of a program's behaviour: its step events, its
/// terminal report at exhaustion, and its return buffer.
#[verifier::ext_equal]
pub ghost struct ProgramModel {
    /// The behaviour of each instruction executed, in order.
    pub steps: Seq<StepEvent>,
    /// The terminal reason at exhaustion.
    pub end: ExitReason,
    /// The machine's produced return value.
    pub ret: Seq<u8>,
}

/// The reading of a concrete program.
pub open spec fn pm(p: Program) -> ProgramModel {
    ProgramModel { steps: p.steps@, end: p.end, ret: p.ret@ }
}

/// The reading of a program with no instructions, no output, and a plain
/// stop at exhaustion.
pub open spec fn empty_program_model() -> ProgramModel {
    ProgramModel {
        steps: Seq::empty(),
        end: ExitReason::Succeed(crate::exit::ExitSucceed::Stopped),
        ret: Seq::empty(),
    }
}

/// An in-progress run: a program tied to the context it executes in.
pub struct Runtime {
    /// The program and its behaviour.
    pub program: Program,
    /// The input data handed to the run.
    pub input: Vec<u8>,
    /// The execution context.
    pub context: Context,
}

impl Runtime {
    /// Sets up a fresh run of `program` on `input` in `context`.
    pub fn new(program: Program, input: Vec<u8>, context: Context) -> (r: Runtime)
        ensures
            r.program == program,
            r.input == input,
            r.context == context,
    {
        Runtime { program, input, context }
    }

    /// The machine's produced return value, as an independent copy.
    pub fn return_value(&self) -> (r: Vec<u8>)
        ensures
            r@ == self.program.ret@,
    {
        copy_values(&self.program.ret)
    }
}

/// Copies a vector of plain values; the copy's contents equal the
/// original's.
pub fn copy_values<T: Copy>(v: &Vec<T>) -> (r: Vec<T>)
    ensures
        r@ == v@,
{
    let mut r: Vec<T> = Vec::new();
    let mut i: usize = 0;
    while i < v.len()
        invariant
            0 <= i <= v@.len(),
            r@ == v@.subrange(0, i as int),
        decreases v@.len() - i,
    {
        r.push(v[i]);
        i = i + 1;
    }
    proof {
        assert(r@ =~= v@);
    }
    r
}

} // verus!
