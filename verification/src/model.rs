//! The mathematical model of a traced run.
//!
//! [`run_from`] reads a program's step events and yields the sequence of
//! step records a traced run appends together with its terminal reason,
//! exactly as the trace loop behaves: one record per instruction whose
//! cost table, gasometer and position all succeed, termination on the
//! first failure, and nested calls and creations contributing their own
//! records at greater depth while tracing is enabled.

use vstd::prelude::*;

use crate::engine::{nonce_of, storage_pairs, Engine};
use crate::exit::{ExitError, ExitFatal, ExitReason};
use crate::machine::{pm, Context, ProgramModel, StepEvent, StepOutcome, Transfer};
use crate::opcode::OpId;

verus! {

/// The world as the model reads it: total maps from address to storage
/// pair list and to nonce.
#[verifier::ext_equal]
pub ghost struct WorldView {
    /// Each address's storage pair list; empty where no account stands.
    pub storage: Map<u64, Seq<(u64, u64)>>,
    /// Each address's nonce; zero where no account stands.
    pub nonce: Map<u64, u64>,
}

/// The world an engine state presents.
pub open spec fn world(e: Engine) -> WorldView {
    WorldView {
        storage: Map::new(|a: u64| true, |a: u64| storage_pairs(e.accounts@, a)),
        nonce: Map::new(|a: u64| true, |a: u64| nonce_of(e.accounts@, a)),
    }
}

/// Engine states whose storage and nonce accessors agree present the
/// same world.
pub proof fn lemma_world_eq(e1: Engine, e2: Engine)
    requires
        forall|x: u64|
            #![all_triggers]
            storage_pairs(e1.accounts@, x) == storage_pairs(e2.accounts@, x) && nonce_of(
                e1.accounts@,
                x,
            ) == nonce_of(e2.accounts@, x),
    ensures
        world(e1) == world(e2),
{
    assert(world(e1).storage =~= world(e2).storage);
    assert(world(e1).nonce =~= world(e2).nonce);
    assert(world(e1) =~= world(e2));
}

/// One step record, mathematically.
#[verifier::ext_equal]
pub ghost struct Rec {
    /// The nesting depth at the instruction.
    pub depth: nat,
    /// The gas remaining before the instruction, as the gasometer
    /// reported it.
    pub gas: u64,
    /// The realized cost of the instruction.
    pub gas_cost: u64,
    /// The memory snapshot.
    pub memory: Seq<u8>,
    /// The instruction tag.
    pub op: OpId,
    /// The reported program counter.
    pub pc: u64,
    /// The operand stack snapshot, bottom first.
    pub stack: Seq<u64>,
    /// The executing account's storage pair list.
    pub storage: Seq<(u64, u64)>,
}

/// What a traced run yields: its records, in execution order, and its
/// terminal reason.
#[verifier::ext_equal]
pub ghost struct RunModel {
    /// The appended step records.
    pub recs: Seq<Rec>,
    /// The terminal reason.
    pub reason: ExitReason,
}

/// The depth budget left to an engine state: how many scopes may still be
/// entered.
pub open spec fn trace_fuel(e: Engine) -> nat {
    (e.max_depth - e.depth_spec()) as nat
}

/// The context a nested call runs in: the explicit transfer names caller
/// and value; without one the call is value-less with caller equal to the
/// callee.
pub open spec fn call_context(target: u64, transfer: Option<Transfer>) -> Context {
    match transfer {
        Some(t) => Context { address: target, caller: t.source, apparent_value: t.value },
        None => Context { address: target, caller: target, apparent_value: 0 },
    }
}

/// The gas bound a nested run is entered with: explicit, or unbounded.
pub open spec fn gas_limit_of(target_gas: Option<u64>) -> u64 {
    match target_gas {
        Some(g) => g,
        None => u64::MAX,
    }
}

/// The address the legacy creation scheme derives from a caller and its
/// nonce.
pub open spec fn created_address(caller: u64, nonce: u64) -> u64 {
    ((caller << 16) | (caller >> 48)) ^ (nonce << 32) ^ (nonce >> 32) ^ 0x5851f42d4c957f2d
}

/// The records and terminal reason of a traced run, read from step `i`
/// onward.  `end` is the reason positioning reports at exhaustion, `ctx`
/// the run's context, `depth` its nesting depth, `tr` whether nested calls
/// are traced, and `fuel` the depth budget left.
pub open spec fn run_from(
    steps: Seq<StepEvent>,
    i: int,
    end: ExitReason,
    ctx: Context,
    w: WorldView,
    depth: nat,
    tr: bool,
    fuel: nat,
) -> RunModel
    decreases fuel, steps.len() - i, 2int,
{
    if i < 0 || i >= steps.len() {
        RunModel { recs: Seq::empty(), reason: end }
    } else {
        let ev = steps[i];
        match ev.table_cost {
            Result::Err(e) => RunModel { recs: Seq::empty(), reason: ExitReason::Error(e) },
            Result::Ok(_) => match ev.reduced_cost {
                Result::Err(e) => RunModel { recs: Seq::empty(), reason: ExitReason::Error(e) },
                Result::Ok(gc) => match ev.position {
                    Result::Err(r) => RunModel { recs: Seq::empty(), reason: r },
                    Result::Ok(pc) => {
                        let rec = Rec {
                            depth,
                            gas: ev.gas_left,
                            gas_cost: gc,
                            memory: ev.memory@,
                            op: ev.op,
                            pc,
                            stack: ev.stack@,
                            storage: w.storage[ctx.address],
                        };
                        match ev.outcome {
                            StepOutcome::Continue => {
                                let rest = run_from(steps, i + 1, end, ctx, w, depth, tr, fuel);
                                RunModel { recs: seq![rec] + rest.recs, reason: rest.reason }
                            },
                            StepOutcome::Exit(r) => RunModel { recs: seq![rec], reason: r },
                            StepOutcome::Trap => RunModel {
                                recs: seq![rec],
                                reason: ExitReason::Fatal(ExitFatal::UnhandledInterrupt),
                            },
                            StepOutcome::Call(ce) => {
                                let nested = call_recs(
                                    ce.target,
                                    ce.transfer,
                                    pm(ce.program),
                                    w,
                                    depth,
                                    tr,
                                    fuel,
                                );
                                let rest = run_from(steps, i + 1, end, ctx, w, depth, tr, fuel);
                                RunModel {
                                    recs: seq![rec] + nested + rest.recs,
                                    reason: rest.reason,
                                }
                            },
                            StepOutcome::Create(ce) => {
                                let nested = create_recs(
                                    ce.caller,
                                    ce.value,
                                    pm(ce.init),
                                    w,
                                    depth,
                                    tr,
                                    fuel,
                                );
                                let rest = run_from(steps, i + 1, end, ctx, w, depth, tr, fuel);
                                RunModel {
                                    recs: seq![rec] + nested + rest.recs,
                                    reason: rest.reason,
                                }
                            },
                        }
                    },
                },
            },
        }
    }
}

/// The records a nested call contributes: none unless tracing is enabled.
pub open spec fn call_recs(
    target: u64,
    transfer: Option<Transfer>,
    callee: ProgramModel,
    w: WorldView,
    depth: nat,
    tr: bool,
    fuel: nat,
) -> Seq<Rec>
    decreases fuel, 0int, 2int,
{
    if tr {
        call_run(target, transfer, callee, w, depth, tr, fuel).recs
    } else {
        Seq::empty()
    }
}

/// The traced run of a nested call: the callee's program in the context
/// the transfer names, one scope deeper.
pub open spec fn call_run(
    target: u64,
    transfer: Option<Transfer>,
    callee: ProgramModel,
    w: WorldView,
    depth: nat,
    tr: bool,
    fuel: nat,
) -> RunModel
    decreases fuel, 0int, 1int,
{
    let ctx = call_context(target, transfer);
    entry_run(target, ctx.caller, ctx.apparent_value, callee, w, depth, tr, fuel)
}

/// The run a call or create entry point drives: refused with
/// `CallTooDeep` once the depth budget is spent, otherwise the given
/// program at the given context, one scope deeper.
pub open spec fn entry_run(
    address: u64,
    caller: u64,
    value: u64,
    callee: ProgramModel,
    w: WorldView,
    depth: nat,
    tr: bool,
    fuel: nat,
) -> RunModel
    decreases fuel, 0int, 0int,
{
    if fuel == 0 {
        RunModel { recs: Seq::empty(), reason: ExitReason::Error(ExitError::CallTooDeep) }
    } else {
        run_from(
            callee.steps,
            0,
            callee.end,
            Context { address, caller, apparent_value: value },
            w,
            depth + 1,
            tr,
            (fuel - 1) as nat,
        )
    }
}

/// The output bytes an entry point returns: the program's produced return
/// value on success or revert, empty otherwise.
pub open spec fn entry_output(
    address: u64,
    caller: u64,
    value: u64,
    callee: ProgramModel,
    w: WorldView,
    depth: nat,
    tr: bool,
    fuel: nat,
) -> Seq<u8> {
    if fuel != 0 && entry_run(address, caller, value, callee, w, depth, tr, fuel).reason.keeps_output() {
        callee.ret
    } else {
        Seq::empty()
    }
}

/// The output bytes a nested call returns.
pub open spec fn call_output(
    target: u64,
    transfer: Option<Transfer>,
    callee: ProgramModel,
    w: WorldView,
    depth: nat,
    tr: bool,
    fuel: nat,
) -> Seq<u8> {
    let ctx = call_context(target, transfer);
    entry_output(target, ctx.caller, ctx.apparent_value, callee, w, depth, tr, fuel)
}

/// The records a nested creation contributes: none unless tracing is
/// enabled.
pub open spec fn create_recs(
    caller: u64,
    value: u64,
    init: ProgramModel,
    w: WorldView,
    depth: nat,
    tr: bool,
    fuel: nat,
) -> Seq<Rec>
    decreases fuel, 0int, 2int,
{
    if tr {
        create_run(caller, value, init, w, depth, tr, fuel).recs
    } else {
        Seq::empty()
    }
}

/// The traced run of a nested creation: the initialization program at the
/// address the legacy scheme derives, one scope deeper.
pub open spec fn create_run(
    caller: u64,
    value: u64,
    init: ProgramModel,
    w: WorldView,
    depth: nat,
    tr: bool,
    fuel: nat,
) -> RunModel
    decreases fuel, 0int, 1int,
{
    entry_run(created_address(caller, w.nonce[caller]), caller, value, init, w, depth, tr, fuel)
}

/// The output bytes a nested creation returns.
pub open spec fn create_output(
    caller: u64,
    value: u64,
    init: ProgramModel,
    w: WorldView,
    depth: nat,
    tr: bool,
    fuel: nat,
) -> Seq<u8> {
    entry_output(created_address(caller, w.nonce[caller]), caller, value, init, w, depth, tr, fuel)
}

/// The address a creation reports: the derived address on success or
/// revert, absent otherwise.
pub open spec fn create_address_result(
    caller: u64,
    value: u64,
    init: ProgramModel,
    w: WorldView,
    depth: nat,
    tr: bool,
    fuel: nat,
) -> Option<u64> {
    if fuel != 0 && create_run(caller, value, init, w, depth, tr, fuel).reason.keeps_output() {
        Some(created_address(caller, w.nonce[caller]))
    } else {
        None
    }
}

} // verus!
