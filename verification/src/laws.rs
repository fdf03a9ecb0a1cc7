//! The laws the tracer obeys, stated over the run model and proved once
//! and for all.  The trace loop's own contract ties the concrete record
//! sequence to [`run_from`], so each law below holds of every traced
//! execution.

use vstd::prelude::*;

use crate::exit::ExitReason;
use crate::machine::{pm, Context, ProgramModel, StepEvent, StepOutcome, Transfer};
use crate::model::{
    call_context, created_address, create_address_result, create_output, create_run, entry_output,
    entry_run, run_from, WorldView,
};

verus! {


/// Unfolds the records a nested call contributes to the run that makes
/// it.
proof fn lemma_unfold_call(
    target: u64,
    transfer: Option<Transfer>,
    p: ProgramModel,
    w: WorldView,
    depth: nat,
    tr: bool,
    fuel: nat,
)
    ensures
        crate::model::call_recs(target, transfer, p, w, depth, tr, fuel) == (if tr && fuel > 0 {
            run_from(
                p.steps,
                0,
                p.end,
                call_context(target, transfer),
                w,
                depth + 1,
                tr,
                (fuel - 1) as nat,
            ).recs
        } else {
            Seq::<crate::model::Rec>::empty()
        }),
{
    let ctx2 = call_context(target, transfer);
    let cr = crate::model::call_run(target, transfer, p, w, depth, tr, fuel);
    let er = entry_run(target, ctx2.caller, ctx2.apparent_value, p, w, depth, tr, fuel);
    assert(cr == er);
    if fuel == 0 {
        assert(er.recs =~= Seq::<crate::model::Rec>::empty());
    } else {
        assert((Context { address: target, caller: ctx2.caller, apparent_value: ctx2.apparent_value })
            == ctx2);
        assert(er == run_from(p.steps, 0, p.end, ctx2, w, depth + 1, tr, (fuel - 1) as nat));
    }
}

/// Unfolds the records a nested creation contributes to the run that
/// makes it.
proof fn lemma_unfold_create(
    caller: u64,
    value: u64,
    p: ProgramModel,
    w: WorldView,
    depth: nat,
    tr: bool,
    fuel: nat,
)
    ensures
        crate::model::create_recs(caller, value, p, w, depth, tr, fuel) == (if tr && fuel > 0 {
            run_from(
                p.steps,
                0,
                p.end,
                Context {
                    address: created_address(caller, w.nonce[caller]),
                    caller,
                    apparent_value: value,
                },
                w,
                depth + 1,
                tr,
                (fuel - 1) as nat,
            ).recs
        } else {
            Seq::<crate::model::Rec>::empty()
        }),
{
    let addr = created_address(caller, w.nonce[caller]);
    let cr = create_run(caller, value, p, w, depth, tr, fuel);
    let er = entry_run(addr, caller, value, p, w, depth, tr, fuel);
    assert(cr == er);
    if fuel == 0 {
        assert(er.recs =~= Seq::<crate::model::Rec>::empty());
    } else {
        assert(er == run_from(
            p.steps,
            0,
            p.end,
            Context { address: addr, caller, apparent_value: value },
            w,
            depth + 1,
            tr,
            (fuel - 1) as nat,
        ));
    }
}

/// The number of instructions a traced run records from step `i` onward:
/// one per instruction whose cost table, gasometer and position all
/// succeed, plus the instructions of nested runs while tracing is
/// enabled; an instruction failing any of the three contributes nothing
/// and ends the run.
pub open spec fn traced_count(steps: Seq<StepEvent>, i: int, tr: bool, fuel: nat) -> nat
    decreases fuel, steps.len() - i, 1int,
{
    if i < 0 || i >= steps.len() {
        0
    } else {
        let ev = steps[i];
        match ev.table_cost {
            Result::Err(_) => 0,
            Result::Ok(_) => match ev.reduced_cost {
                Result::Err(_) => 0,
                Result::Ok(_) => match ev.position {
                    Result::Err(_) => 0,
                    Result::Ok(_) => match ev.outcome {
                        StepOutcome::Continue => 1 + traced_count(steps, i + 1, tr, fuel),
                        StepOutcome::Exit(_) => 1,
                        StepOutcome::Trap => 1,
                        StepOutcome::Call(ce) => 1 + nested_count(pm(ce.program), tr, fuel)
                            + traced_count(steps, i + 1, tr, fuel),
                        StepOutcome::Create(ce) => 1 + nested_count(pm(ce.init), tr, fuel)
                            + traced_count(steps, i + 1, tr, fuel),
                    },
                },
            },
        }
    }
}

/// The instructions a nested run contributes: none unless tracing is
/// enabled and depth budget remains.
pub open spec fn nested_count(p: ProgramModel, tr: bool, fuel: nat) -> nat
    decreases fuel, 0int, 0int,
{
    if !tr || fuel == 0 {
        0
    } else {
        traced_count(p.steps, 0, tr, (fuel - 1) as nat)
    }
}

/// For every program, the step-record sequence is exactly as long as the
/// number of instructions whose cost computations and positioning
/// succeeded; a failing instruction contributes zero records and
/// terminates the run.
pub proof fn lemma_record_count(
    steps: Seq<StepEvent>,
    i: int,
    end: ExitReason,
    ctx: Context,
    w: WorldView,
    depth: nat,
    tr: bool,
    fuel: nat,
)
    ensures
        run_from(steps, i, end, ctx, w, depth, tr, fuel).recs.len() == traced_count(
            steps,
            i,
            tr,
            fuel,
        ),
    decreases fuel, steps.len() - i, 1int,
{
    if i < 0 || i >= steps.len() {
    } else {
        let ev = steps[i];
        match ev.table_cost {
            Result::Err(_) => {},
            Result::Ok(_) => match ev.reduced_cost {
                Result::Err(_) => {},
                Result::Ok(_) => match ev.position {
                    Result::Err(_) => {},
                    Result::Ok(_) => match ev.outcome {
                        StepOutcome::Continue => {
                            lemma_record_count(steps, i + 1, end, ctx, w, depth, tr, fuel);
                        },
                        StepOutcome::Exit(_) => {},
                        StepOutcome::Trap => {},
                        StepOutcome::Call(ce) => {
                            let p = pm(ce.program);
                            lemma_unfold_call(ce.target, ce.transfer, p, w, depth, tr, fuel);
                            if tr && fuel > 0 {
                                lemma_record_count(
                                    p.steps,
                                    0,
                                    p.end,
                                    call_context(ce.target, ce.transfer),
                                    w,
                                    depth + 1,
                                    tr,
                                    (fuel - 1) as nat,
                                );
                            }
                            lemma_record_count(steps, i + 1, end, ctx, w, depth, tr, fuel);
                            assert(nested_count(p, tr, fuel) == (if !tr || fuel == 0 {
                                0nat
                            } else {
                                traced_count(p.steps, 0, tr, (fuel - 1) as nat)
                            }));
                        },
                        StepOutcome::Create(ce) => {
                            let p = pm(ce.init);
                            lemma_unfold_create(ce.caller, ce.value, p, w, depth, tr, fuel);
                            if tr && fuel > 0 {
                                lemma_record_count(
                                    p.steps,
                                    0,
                                    p.end,
                                    Context {
                                        address: created_address(ce.caller, w.nonce[ce.caller]),
                                        caller: ce.caller,
                                        apparent_value: ce.value,
                                    },
                                    w,
                                    depth + 1,
                                    tr,
                                    (fuel - 1) as nat,
                                );
                            }
                            lemma_record_count(steps, i + 1, end, ctx, w, depth, tr, fuel);
                            assert(nested_count(p, tr, fuel) == (if !tr || fuel == 0 {
                                0nat
                            } else {
                                traced_count(p.steps, 0, tr, (fuel - 1) as nat)
                            }));
                        },
                    },
                },
            },
        }
    }
}

/// Every record of a run carries at least the run's own depth: records
/// of nested calls and creations lie strictly deeper, and the depth is
/// restored on return from them.
pub proof fn lemma_depth_floor(
    steps: Seq<StepEvent>,
    i: int,
    end: ExitReason,
    ctx: Context,
    w: WorldView,
    depth: nat,
    tr: bool,
    fuel: nat,
)
    ensures
        forall|j: int|
            0 <= j < run_from(steps, i, end, ctx, w, depth, tr, fuel).recs.len()
                ==> #[trigger] run_from(steps, i, end, ctx, w, depth, tr, fuel).recs[j].depth
                >= depth,
    decreases fuel, steps.len() - i, 1int,
{
    if i < 0 || i >= steps.len() {
    } else {
        let ev = steps[i];
        match ev.table_cost {
            Result::Err(_) => {},
            Result::Ok(_) => match ev.reduced_cost {
                Result::Err(_) => {},
                Result::Ok(_) => match ev.position {
                    Result::Err(_) => {},
                    Result::Ok(_) => match ev.outcome {
                        StepOutcome::Continue => {
                            lemma_depth_floor(steps, i + 1, end, ctx, w, depth, tr, fuel);
                        },
                        StepOutcome::Exit(_) => {},
                        StepOutcome::Trap => {},
                        StepOutcome::Call(ce) => {
                            let p = pm(ce.program);
                            lemma_unfold_call(ce.target, ce.transfer, p, w, depth, tr, fuel);
                            if tr && fuel > 0 {
                                lemma_depth_floor(
                                    p.steps,
                                    0,
                                    p.end,
                                    call_context(ce.target, ce.transfer),
                                    w,
                                    depth + 1,
                                    tr,
                                    (fuel - 1) as nat,
                                );
                            }
                            lemma_depth_floor(steps, i + 1, end, ctx, w, depth, tr, fuel);
                        },
                        StepOutcome::Create(ce) => {
                            let p = pm(ce.init);
                            lemma_unfold_create(ce.caller, ce.value, p, w, depth, tr, fuel);
                            if tr && fuel > 0 {
                                lemma_depth_floor(
                                    p.steps,
                                    0,
                                    p.end,
                                    Context {
                                        address: created_address(ce.caller, w.nonce[ce.caller]),
                                        caller: ce.caller,
                                        apparent_value: ce.value,
                                    },
                                    w,
                                    depth + 1,
                                    tr,
                                    (fuel - 1) as nat,
                                );
                            }
                            lemma_depth_floor(steps, i + 1, end, ctx, w, depth, tr, fuel);
                        },
                    },
                },
            },
        }
    }
}

/// Every record carrying the run's own depth snapshots the storage of
/// the account whose context that run executes in — never the storage of
/// an enclosing caller: records made inside a nested call lie strictly
/// deeper and snapshot the callee's account instead.
pub proof fn lemma_storage_context(
    steps: Seq<StepEvent>,
    i: int,
    end: ExitReason,
    ctx: Context,
    w: WorldView,
    depth: nat,
    tr: bool,
    fuel: nat,
)
    ensures
        forall|j: int|
            0 <= j < run_from(steps, i, end, ctx, w, depth, tr, fuel).recs.len()
                && #[trigger] run_from(steps, i, end, ctx, w, depth, tr, fuel).recs[j].depth
                == depth ==> run_from(steps, i, end, ctx, w, depth, tr, fuel).recs[j].storage
                == w.storage[ctx.address],
    decreases fuel, steps.len() - i, 1int,
{
    if i < 0 || i >= steps.len() {
    } else {
        let ev = steps[i];
        match ev.table_cost {
            Result::Err(_) => {},
            Result::Ok(_) => match ev.reduced_cost {
                Result::Err(_) => {},
                Result::Ok(_) => match ev.position {
                    Result::Err(_) => {},
                    Result::Ok(_) => match ev.outcome {
                        StepOutcome::Continue => {
                            lemma_storage_context(steps, i + 1, end, ctx, w, depth, tr, fuel);
                        },
                        StepOutcome::Exit(_) => {},
                        StepOutcome::Trap => {},
                        StepOutcome::Call(ce) => {
                            let p = pm(ce.program);
                            lemma_unfold_call(ce.target, ce.transfer, p, w, depth, tr, fuel);
                            if tr && fuel > 0 {
                                lemma_depth_floor(
                                    p.steps,
                                    0,
                                    p.end,
                                    call_context(ce.target, ce.transfer),
                                    w,
                                    depth + 1,
                                    tr,
                                    (fuel - 1) as nat,
                                );
                            }
                            lemma_storage_context(steps, i + 1, end, ctx, w, depth, tr, fuel);
                        },
                        StepOutcome::Create(ce) => {
                            let p = pm(ce.init);
                            lemma_unfold_create(ce.caller, ce.value, p, w, depth, tr, fuel);
                            if tr && fuel > 0 {
                                lemma_depth_floor(
                                    p.steps,
                                    0,
                                    p.end,
                                    Context {
                                        address: created_address(ce.caller, w.nonce[ce.caller]),
                                        caller: ce.caller,
                                        apparent_value: ce.value,
                                    },
                                    w,
                                    depth + 1,
                                    tr,
                                    (fuel - 1) as nat,
                                );
                            }
                            lemma_storage_context(steps, i + 1, end, ctx, w, depth, tr, fuel);
                        },
                    },
                },
            },
        }
    }
}

/// Trace transparency: enabling or disabling the tracing flag never
/// changes the terminal reason of a run — only which records are
/// appended.  Nested runs never feed their outcome back into the
/// enclosing run's reason, whose course the step events alone decide.
pub proof fn lemma_trace_transparency(
    steps: Seq<StepEvent>,
    i: int,
    end: ExitReason,
    ctx: Context,
    w: WorldView,
    depth: nat,
    fuel: nat,
)
    ensures
        run_from(steps, i, end, ctx, w, depth, true, fuel).reason == run_from(
            steps,
            i,
            end,
            ctx,
            w,
            depth,
            false,
            fuel,
        ).reason,
    decreases fuel, steps.len() - i, 1int,
{
    if i < 0 || i >= steps.len() {
    } else {
        let ev = steps[i];
        match ev.table_cost {
            Result::Err(_) => {},
            Result::Ok(_) => match ev.reduced_cost {
                Result::Err(_) => {},
                Result::Ok(_) => match ev.position {
                    Result::Err(_) => {},
                    Result::Ok(_) => match ev.outcome {
                        StepOutcome::Continue => {
                            lemma_trace_transparency(steps, i + 1, end, ctx, w, depth, fuel);
                        },
                        StepOutcome::Exit(_) => {},
                        StepOutcome::Trap => {},
                        StepOutcome::Call(_) => {
                            lemma_trace_transparency(steps, i + 1, end, ctx, w, depth, fuel);
                            assert(run_from(steps, i, end, ctx, w, depth, true, fuel).reason
                                == run_from(steps, i + 1, end, ctx, w, depth, true, fuel).reason);
                            assert(run_from(steps, i, end, ctx, w, depth, false, fuel).reason
                                == run_from(steps, i + 1, end, ctx, w, depth, false, fuel).reason);
                        },
                        StepOutcome::Create(_) => {
                            lemma_trace_transparency(steps, i + 1, end, ctx, w, depth, fuel);
                            assert(run_from(steps, i, end, ctx, w, depth, true, fuel).reason
                                == run_from(steps, i + 1, end, ctx, w, depth, true, fuel).reason);
                            assert(run_from(steps, i, end, ctx, w, depth, false, fuel).reason
                                == run_from(steps, i + 1, end, ctx, w, depth, false, fuel).reason);
                        },
                    },
                },
            },
        }
    }
}

/// Trace transparency at an entry point: the terminal reason and the
/// returned output bytes of a call or create entry are the same whether
/// or not tracing is enabled.
pub proof fn lemma_entry_transparency(
    address: u64,
    caller: u64,
    value: u64,
    callee: ProgramModel,
    w: WorldView,
    depth: nat,
    fuel: nat,
)
    ensures
        entry_run(address, caller, value, callee, w, depth, true, fuel).reason == entry_run(
            address,
            caller,
            value,
            callee,
            w,
            depth,
            false,
            fuel,
        ).reason,
        entry_output(address, caller, value, callee, w, depth, true, fuel) == entry_output(
            address,
            caller,
            value,
            callee,
            w,
            depth,
            false,
            fuel,
        ),
{
    if fuel == 0 {
    } else {
        lemma_trace_transparency(
            callee.steps,
            0,
            callee.end,
            Context { address, caller, apparent_value: value },
            w,
            depth + 1,
            (fuel - 1) as nat,
        );
    }
}

/// Trace transparency for a creation: the terminal reason, the reported
/// created address and the returned output bytes are the same whether or
/// not tracing is enabled; in particular the address derived from the
/// legacy scheme depends on the caller and its nonce alone.
pub proof fn lemma_create_transparency(
    caller: u64,
    value: u64,
    init: ProgramModel,
    w: WorldView,
    depth: nat,
    fuel: nat,
)
    ensures
        create_run(caller, value, init, w, depth, true, fuel).reason == create_run(
            caller,
            value,
            init,
            w,
            depth,
            false,
            fuel,
        ).reason,
        create_output(caller, value, init, w, depth, true, fuel) == create_output(
            caller,
            value,
            init,
            w,
            depth,
            false,
            fuel,
        ),
        create_address_result(caller, value, init, w, depth, true, fuel) == create_address_result(
            caller,
            value,
            init,
            w,
            depth,
            false,
            fuel,
        ),
{
    lemma_entry_transparency(
        created_address(caller, w.nonce[caller]),
        caller,
        value,
        init,
        w,
        depth,
        fuel,
    );
}

} // verus!
