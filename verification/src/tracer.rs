//! The step tracer: a wrapper around the engine that drives the trace
//! loop, intercepts nested calls and creations, and passes every other
//! host capability through to the engine unchanged.

use vstd::prelude::*;

use crate::engine::{
    balance_of, code_hash_of, code_of, has_account, keeps_output, nonce_of, original_pairs,
    program_of, slookup_or_zero, storage_pairs, views_eq, Engine,
};
use crate::exit::{Capture, ExitError, ExitFatal, ExitReason};
use crate::machine::{copy_values, pm, Context, CreateScheme, Program, Runtime, Transfer};
use crate::model::{
    call_context, call_output, call_recs, call_run, create_address_result, create_output,
    create_recs, create_run, created_address, entry_output, entry_run, run_from, trace_fuel, world,
    Rec,
};
use crate::opcode::OpId;

verus! {

/// One step record: a snapshot of execution state immediately before one
/// instruction executes.  Records are appended in strict execution order
/// and never reordered or mutated.
pub struct StepLog {
    /// The call-stack nesting depth at the instruction.
    pub depth: u64,
    /// The gas remaining before the instruction executes.
    pub gas: u64,
    /// The cost attributed to this instruction.
    pub gas_cost: u64,
    /// A snapshot of the running program's linear memory.
    pub memory: Vec<u8>,
    /// The executed instruction's tag.
    pub op: OpId,
    /// The program counter of the instruction.
    pub pc: u64,
    /// A snapshot of the operand stack, bottom first.
    pub stack: Vec<u64>,
    /// The storage of the account whose context is executing, as a pair
    /// list read last-write-wins; empty when the account is not
    /// resolvable.
    pub storage: Vec<(u64, u64)>,
}

/// The mathematical reading of one step record.
pub open spec fn rec_model(l: StepLog) -> Rec {
    Rec {
        depth: l.depth as nat,
        gas: l.gas,
        gas_cost: l.gas_cost,
        memory: l.memory@,
        op: l.op,
        pc: l.pc,
        stack: l.stack@,
        storage: l.storage@,
    }
}

/// The mathematical reading of a record sequence.
pub open spec fn logs_model(s: Seq<StepLog>) -> Seq<Rec> {
    s.map_values(|l: StepLog| rec_model(l))
}

/// Appending one record appends its reading.
pub proof fn lemma_logs_model_push(s: Seq<StepLog>, l: StepLog)
    ensures
        logs_model(s.push(l)) == logs_model(s).push(rec_model(l)),
{
    assert(logs_model(s.push(l)) =~= logs_model(s).push(rec_model(l)));
}

/// The step tracer: owns the engine for the lifetime of one top-level
/// invocation, a tracing flag fixed at construction, and the growing
/// record sequence.
pub struct TraceExecutorWrapper {
    /// The wrapped engine.
    pub inner: Engine,
    /// Whether nested calls and creations are traced rather than handed
    /// to the engine's own execution.
    pub is_tracing: bool,
    /// The accumulated step records, in execution order.
    pub step_logs: Vec<StepLog>,
}

impl TraceExecutorWrapper {
    /// Wraps `inner`, with no records accumulated yet.
    pub fn new(inner: Engine, is_tracing: bool) -> (r: Self)
        ensures
            r.inner == inner,
            r.is_tracing == is_tracing,
            r.step_logs@ == Seq::<StepLog>::empty(),
    {
        let r = TraceExecutorWrapper { inner, is_tracing, step_logs: Vec::new() };
        proof {
            assert(r.step_logs@ =~= Seq::<StepLog>::empty());
        }
        r
    }

    /// The trace loop: advances `program` one instruction at a time in
    /// `context`, appending one record per instruction whose cost table,
    /// gasometer and position all succeed, until a terminal state is
    /// reached.  The appended records and the returned reason are exactly
    /// what the model reads from the program's events.
    #[verifier::loop_isolation(false)]
    fn trace(&mut self, program: &Program, context: Context) -> (r: ExitReason)
        requires
            old(self).inner.wf(),
        ensures
            final(self).inner.wf(),
            final(self).inner.substates@ == old(self).inner.substates@,
            final(self).inner.frame_eq(old(self).inner),
            views_eq(final(self).inner.accounts@, old(self).inner.accounts@),
            forall|x: u64|
                has_account(old(self).inner.accounts@, x) ==> #[trigger] has_account(
                    final(self).inner.accounts@,
                    x,
                ),
            final(self).is_tracing == old(self).is_tracing,
            ({
                let m = run_from(
                    program.steps@,
                    0,
                    program.end,
                    context,
                    world(old(self).inner),
                    old(self).inner.depth_spec() as nat,
                    old(self).is_tracing,
                    trace_fuel(old(self).inner),
                );
                &&& logs_model(final(self).step_logs@) == logs_model(old(self).step_logs@)
                    + m.recs
                &&& r == m.reason
            }),
        decreases old(self).inner.max_depth - old(self).inner.depth_spec(), 4int,
    {
        let ghost w = world(old(self).inner);
        let ghost d = old(self).inner.depth_spec() as nat;
        let ghost tr = old(self).is_tracing;
        let ghost f = trace_fuel(old(self).inner);
        let ghost steps = program.steps@;
        let ghost end = program.end;
        let ghost m = run_from(steps, 0, end, context, w, d, tr, f);
        let ghost base = logs_model(old(self).step_logs@);
        let mut i: usize = 0;
        let ghost mut acc: Seq<Rec> = Seq::empty();
        proof {
            assert(m.recs =~= acc + m.recs);
        }
        loop
            invariant
                self.inner.wf(),
                self.inner.substates@ == old(self).inner.substates@,
                self.inner.frame_eq(old(self).inner),
                views_eq(self.inner.accounts@, old(self).inner.accounts@),
                forall|x: u64|
                    has_account(old(self).inner.accounts@, x) ==> #[trigger] has_account(
                        self.inner.accounts@,
                        x,
                    ),
                self.is_tracing == tr,
                0 <= i <= steps.len(),
                logs_model(self.step_logs@) == base + acc,
                m.recs == acc + run_from(steps, i as int, end, context, w, d, tr, f).recs,
                m.reason == run_from(steps, i as int, end, context, w, d, tr, f).reason,
            decreases steps.len() - i,
        {
            if i >= program.steps.len() {
                proof {
                    assert(run_from(steps, i as int, end, context, w, d, tr, f).recs
                        =~= Seq::<Rec>::empty());
                    assert(m.recs =~= acc);
                }
                return program.end;
            }
            let ev = &program.steps[i];
            let ghost sub = run_from(steps, i as int, end, context, w, d, tr, f);
            match ev.table_cost {
                Ok(_) => (),
                Err(e) => {
                    proof {
                        assert(sub.recs =~= Seq::<Rec>::empty());
                        assert(m.recs =~= acc);
                    }
                    return ExitReason::Error(e);
                },
            }
            let gas_cost = match ev.reduced_cost {
                Ok(c) => c,
                Err(e) => {
                    proof {
                        assert(sub.recs =~= Seq::<Rec>::empty());
                        assert(m.recs =~= acc);
                    }
                    return ExitReason::Error(e);
                },
            };
            let pc = match ev.position {
                Ok(p) => p,
                Err(reason) => {
                    proof {
                        assert(sub.recs =~= Seq::<Rec>::empty());
                        assert(m.recs =~= acc);
                    }
                    return reason;
                },
            };
            let depth_now = self.inner.depth();
            let snapshot = match self.inner.account(context.address) {
                Some(account) => copy_values(&account.storage),
                None => Vec::new(),
            };
            let ghost mrec = Rec {
                depth: d,
                gas: ev.gas_left,
                gas_cost,
                memory: ev.memory@,
                op: ev.op,
                pc,
                stack: ev.stack@,
                storage: w.storage[context.address],
            };
            proof {
                assert(w.storage[context.address] == storage_pairs(
                    old(self).inner.accounts@,
                    context.address,
                ));
                assert(storage_pairs(self.inner.accounts@, context.address) == storage_pairs(
                    old(self).inner.accounts@,
                    context.address,
                ));
                assert(snapshot@ == w.storage[context.address]);
            }
            let entry = StepLog {
                depth: depth_now,
                gas: ev.gas_left,
                gas_cost,
                memory: copy_values(&ev.memory),
                op: ev.op,
                pc,
                stack: copy_values(&ev.stack),
                storage: snapshot,
            };
            proof {
                assert(rec_model(entry) =~= mrec);
                lemma_logs_model_push(self.step_logs@, entry);
            }
            self.step_logs.push(entry);
            proof {
                acc = acc.push(mrec);
                assert(logs_model(self.step_logs@) =~= base + acc);
            }
            let ghost rest = run_from(steps, i + 1 as int, end, context, w, d, tr, f);
            match &ev.outcome {
                crate::machine::StepOutcome::Continue => {
                    proof {
                        assert(sub.recs == seq![mrec] + rest.recs);
                        assert(m.recs =~= acc + rest.recs);
                    }
                },
                crate::machine::StepOutcome::Exit(r2) => {
                    proof {
                        assert(sub.recs == seq![mrec]);
                        assert(m.recs =~= acc);
                    }
                    return *r2;
                },
                crate::machine::StepOutcome::Trap => {
                    proof {
                        assert(sub.recs == seq![mrec]);
                        assert(m.recs =~= acc);
                    }
                    return ExitReason::Fatal(ExitFatal::UnhandledInterrupt);
                },
                crate::machine::StepOutcome::Call(ce) => {
                    let ghost nested = call_recs(ce.target, ce.transfer, pm(ce.program), w, d, tr, f);
                    proof {
                        assert(sub.recs == seq![mrec] + nested + rest.recs);
                        crate::model::lemma_world_eq(self.inner, old(self).inner);
                    }
                    let input = copy_values(&ce.input);
                    let _ = self.call(
                        ce.target,
                        ce.transfer,
                        input,
                        &ce.program,
                        ce.target_gas,
                        ce.is_static,
                        context,
                    );
                    proof {
                        acc = acc + nested;
                        assert(logs_model(self.step_logs@) =~= base + acc);
                        assert(m.recs =~= acc + rest.recs);
                    }
                },
                crate::machine::StepOutcome::Create(ce) => {
                    let ghost nested = create_recs(ce.caller, ce.value, pm(ce.init), w, d, tr, f);
                    proof {
                        assert(sub.recs == seq![mrec] + nested + rest.recs);
                        crate::model::lemma_world_eq(self.inner, old(self).inner);
                    }
                    let _ = self.create(ce.caller, ce.scheme, ce.value, &ce.init, ce.target_gas);
                    proof {
                        acc = acc + nested;
                        assert(logs_model(self.step_logs@) =~= base + acc);
                        assert(m.recs =~= acc + rest.recs);
                    }
                },
            }
            i = i + 1;
        }
    }

    /// Sets up and traces a nested call: materializes the target, enters
    /// a non-static scope bound to `gas_limit`, drives `program` through
    /// the trace loop in the context given by `caller` and `value`, and
    /// translates the terminal reason into the caller-facing pair.
    fn trace_call_with(
        &mut self,
        caller: u64,
        address: u64,
        value: u64,
        data: Vec<u8>,
        gas_limit: u64,
        program: &Program,
    ) -> (r: Capture<(ExitReason, Vec<u8>)>)
        requires
            old(self).inner.wf(),
        ensures
            final(self).inner.wf(),
            final(self).inner.substates@ == old(self).inner.substates@,
            final(self).inner.frame_eq(old(self).inner),
            views_eq(final(self).inner.accounts@, old(self).inner.accounts@),
            forall|x: u64|
                has_account(old(self).inner.accounts@, x) ==> #[trigger] has_account(
                    final(self).inner.accounts@,
                    x,
                ),
            final(self).is_tracing == old(self).is_tracing,
            ({
                let w = world(old(self).inner);
                let d = old(self).inner.depth_spec() as nat;
                let f = trace_fuel(old(self).inner);
                let tr = old(self).is_tracing;
                let m = entry_run(address, caller, value, pm(*program), w, d, tr, f);
                &&& logs_model(final(self).step_logs@) == logs_model(old(self).step_logs@)
                    + m.recs
                &&& match r {
                    Capture::Exit(t) => t.0 == m.reason && t.1@ == entry_output(
                        address,
                        caller,
                        value,
                        pm(*program),
                        w,
                        d,
                        tr,
                        f,
                    ),
                    Capture::Trap => false,
                }
            }),
        decreases old(self).inner.max_depth - old(self).inner.depth_spec(), 2int,
    {
        let _ = data;
        let ghost w = world(old(self).inner);
        self.inner.account_mut(address);
        proof {
            crate::model::lemma_world_eq(self.inner, old(self).inner);
        }
        if self.inner.depth() >= self.inner.max_depth {
            proof {
                assert(trace_fuel(old(self).inner) == 0);
                assert(logs_model(self.step_logs@) =~= logs_model(old(self).step_logs@)
                    + Seq::<Rec>::empty());
            }
            return Capture::Exit((ExitReason::Error(ExitError::CallTooDeep), Vec::new()));
        }
        self.inner.enter_substate(gas_limit, false);
        proof {
            crate::model::lemma_world_eq(self.inner, old(self).inner);
        }
        let context = Context { address, caller, apparent_value: value };
        let reason = self.trace(program, context);
        self.inner.exit_substate();
        proof {
            assert(self.inner.substates@ =~= old(self).inner.substates@);
        }
        let output = if keeps_output(reason) {
            copy_values(&program.ret)
        } else {
            Vec::new()
        };
        Capture::Exit((reason, output))
    }

    /// Traces a call of the account at `address`: the caller-facing entry
    /// point.  The target's program is read from the engine; on success
    /// or revert the produced return value accompanies the reason, on
    /// error or fatal outcomes the output is empty.
    pub fn trace_call(
        &mut self,
        caller: u64,
        address: u64,
        value: u64,
        data: Vec<u8>,
        gas_limit: u64,
    ) -> (r: Capture<(ExitReason, Vec<u8>)>)
        requires
            old(self).inner.wf(),
        ensures
            final(self).inner.wf(),
            final(self).inner.substates@ == old(self).inner.substates@,
            final(self).inner.frame_eq(old(self).inner),
            views_eq(final(self).inner.accounts@, old(self).inner.accounts@),
            forall|x: u64|
                has_account(old(self).inner.accounts@, x) ==> #[trigger] has_account(
                    final(self).inner.accounts@,
                    x,
                ),
            final(self).is_tracing == old(self).is_tracing,
            ({
                let w = world(old(self).inner);
                let d = old(self).inner.depth_spec() as nat;
                let f = trace_fuel(old(self).inner);
                let tr = old(self).is_tracing;
                let callee = program_of(old(self).inner.accounts@, address);
                let m = entry_run(address, caller, value, callee, w, d, tr, f);
                &&& logs_model(final(self).step_logs@) == logs_model(old(self).step_logs@)
                    + m.recs
                &&& match r {
                    Capture::Exit(t) => t.0 == m.reason && t.1@ == entry_output(
                        address,
                        caller,
                        value,
                        callee,
                        w,
                        d,
                        tr,
                        f,
                    ),
                    Capture::Trap => false,
                }
            }),
    {
        let ghost w = world(old(self).inner);
        self.inner.account_mut(address);
        proof {
            crate::model::lemma_world_eq(self.inner, old(self).inner);
        }
        if self.inner.depth() >= self.inner.max_depth {
            proof {
                assert(trace_fuel(old(self).inner) == 0);
                assert(logs_model(self.step_logs@) =~= logs_model(old(self).step_logs@)
                    + Seq::<Rec>::empty());
            }
            return Capture::Exit((ExitReason::Error(ExitError::CallTooDeep), Vec::new()));
        }
        let program = self.inner.take_program(address);
        proof {
            crate::model::lemma_world_eq(self.inner, old(self).inner);
        }
        self.inner.enter_substate(gas_limit, false);
        proof {
            crate::model::lemma_world_eq(self.inner, old(self).inner);
        }
        let context = Context { address, caller, apparent_value: value };
        let runtime = Runtime::new(program, data, context);
        let reason = self.trace(&runtime.program, runtime.context);
        self.inner.exit_substate();
        let output = if keeps_output(reason) {
            runtime.return_value()
        } else {
            Vec::new()
        };
        let Runtime { program, input: _, context: _ } = runtime;
        self.inner.put_program(address, program);
        proof {
            assert(self.inner.substates@ =~= old(self).inner.substates@);
        }
        Capture::Exit((reason, output))
    }

    /// Traces a contract creation: derives the created address from the
    /// legacy scheme keyed by `caller`, enters a non-static scope bound
    /// to `gas_limit`, and drives the initialization program through the
    /// trace loop.  The address accompanies the reason on success or
    /// revert and is absent on error or fatal outcomes.
    pub fn trace_create(
        &mut self,
        caller: u64,
        value: u64,
        init: &Program,
        gas_limit: u64,
    ) -> (r: Capture<(ExitReason, Option<u64>, Vec<u8>)>)
        requires
            old(self).inner.wf(),
        ensures
            final(self).inner.wf(),
            final(self).inner.substates@ == old(self).inner.substates@,
            final(self).inner.frame_eq(old(self).inner),
            views_eq(final(self).inner.accounts@, old(self).inner.accounts@),
            forall|x: u64|
                has_account(old(self).inner.accounts@, x) ==> #[trigger] has_account(
                    final(self).inner.accounts@,
                    x,
                ),
            final(self).is_tracing == old(self).is_tracing,
            ({
                let w = world(old(self).inner);
                let d = old(self).inner.depth_spec() as nat;
                let f = trace_fuel(old(self).inner);
                let tr = old(self).is_tracing;
                let m = create_run(caller, value, pm(*init), w, d, tr, f);
                &&& logs_model(final(self).step_logs@) == logs_model(old(self).step_logs@)
                    + m.recs
                &&& match r {
                    Capture::Exit(t) => t.0 == m.reason && t.1 == create_address_result(
                        caller,
                        value,
                        pm(*init),
                        w,
                        d,
                        tr,
                        f,
                    ) && t.2@ == create_output(caller, value, pm(*init), w, d, tr, f),
                    Capture::Trap => false,
                }
            }),
        decreases old(self).inner.max_depth - old(self).inner.depth_spec(), 2int,
    {
        let ghost w = world(old(self).inner);
        let scheme = CreateScheme::Legacy { caller };
        let address = self.inner.create_address(scheme);
        proof {
            assert(w.nonce[caller] == nonce_of(old(self).inner.accounts@, caller));
            assert(address == created_address(caller, w.nonce[caller]));
        }
        if self.inner.depth() >= self.inner.max_depth {
            proof {
                assert(trace_fuel(old(self).inner) == 0);
                assert(logs_model(self.step_logs@) =~= logs_model(old(self).step_logs@)
                    + Seq::<Rec>::empty());
            }
            return Capture::Exit((ExitReason::Error(ExitError::CallTooDeep), None, Vec::new()));
        }
        self.inner.enter_substate(gas_limit, false);
        proof {
            crate::model::lemma_world_eq(self.inner, old(self).inner);
        }
        let context = Context { address, caller, apparent_value: value };
        let reason = self.trace(init, context);
        self.inner.exit_substate();
        proof {
            assert(self.inner.substates@ =~= old(self).inner.substates@);
        }
        if keeps_output(reason) {
            let output = copy_values(&init.ret);
            Capture::Exit((reason, Some(address), output))
        } else {
            Capture::Exit((reason, None, Vec::new()))
        }
    }

    /// The host's `call` capability: when tracing, derives the effective
    /// caller, value and gas limit and traces the nested call into the
    /// same record sequence; otherwise forwards to the engine's own call
    /// execution.  The reason and output are the same either way; only
    /// the records differ.
    pub fn call(
        &mut self,
        code_address: u64,
        transfer: Option<Transfer>,
        input: Vec<u8>,
        program: &Program,
        target_gas: Option<u64>,
        is_static: bool,
        context: Context,
    ) -> (r: Capture<(ExitReason, Vec<u8>)>)
        requires
            old(self).inner.wf(),
        ensures
            final(self).inner.wf(),
            final(self).inner.substates@ == old(self).inner.substates@,
            final(self).inner.frame_eq(old(self).inner),
            views_eq(final(self).inner.accounts@, old(self).inner.accounts@),
            forall|x: u64|
                has_account(old(self).inner.accounts@, x) ==> #[trigger] has_account(
                    final(self).inner.accounts@,
                    x,
                ),
            final(self).is_tracing == old(self).is_tracing,
            ({
                let w = world(old(self).inner);
                let d = old(self).inner.depth_spec() as nat;
                let f = trace_fuel(old(self).inner);
                let tr = old(self).is_tracing;
                let m = call_run(code_address, transfer, pm(*program), w, d, tr, f);
                &&& logs_model(final(self).step_logs@) == logs_model(old(self).step_logs@)
                    + call_recs(code_address, transfer, pm(*program), w, d, tr, f)
                &&& match r {
                    Capture::Exit(t) => t.0 == m.reason && t.1@ == call_output(
                        code_address,
                        transfer,
                        pm(*program),
                        w,
                        d,
                        tr,
                        f,
                    ),
                    Capture::Trap => false,
                }
            }),
        decreases old(self).inner.max_depth - old(self).inner.depth_spec(), 3int,
    {
        if self.is_tracing {
            let (caller, value) = match transfer {
                Some(t) => (t.source, t.value),
                None => (code_address, 0),
            };
            let gas_limit = match target_gas {
                Some(g) => g,
                None => u64::MAX,
            };
            proof {
                assert(call_context(code_address, transfer) == (Context {
                    address: code_address,
                    caller,
                    apparent_value: value,
                }));
            }
            return self.trace_call_with(caller, code_address, value, input, gas_limit, program);
        }
        let r = self.inner.call_inner(
            code_address,
            transfer,
            input,
            program,
            target_gas,
            is_static,
            context,
        );
        proof {
            assert(logs_model(self.step_logs@) =~= logs_model(old(self).step_logs@)
                + Seq::<Rec>::empty());
        }
        r
    }

    /// The host's `create` capability: when tracing, derives the
    /// effective gas limit and traces the nested creation into the same
    /// record sequence; otherwise forwards to the engine's own creation
    /// execution.  The reason, address and output are the same either
    /// way; only the records differ.
    pub fn create(
        &mut self,
        caller: u64,
        scheme: CreateScheme,
        value: u64,
        init: &Program,
        target_gas: Option<u64>,
    ) -> (r: Capture<(ExitReason, Option<u64>, Vec<u8>)>)
        requires
            old(self).inner.wf(),
        ensures
            final(self).inner.wf(),
            final(self).inner.substates@ == old(self).inner.substates@,
            final(self).inner.frame_eq(old(self).inner),
            views_eq(final(self).inner.accounts@, old(self).inner.accounts@),
            forall|x: u64|
                has_account(old(self).inner.accounts@, x) ==> #[trigger] has_account(
                    final(self).inner.accounts@,
                    x,
                ),
            final(self).is_tracing == old(self).is_tracing,
            ({
                let w = world(old(self).inner);
                let d = old(self).inner.depth_spec() as nat;
                let f = trace_fuel(old(self).inner);
                let tr = old(self).is_tracing;
                let m = create_run(caller, value, pm(*init), w, d, tr, f);
                &&& logs_model(final(self).step_logs@) == logs_model(old(self).step_logs@)
                    + create_recs(caller, value, pm(*init), w, d, tr, f)
                &&& match r {
                    Capture::Exit(t) => t.0 == m.reason && t.1 == create_address_result(
                        caller,
                        value,
                        pm(*init),
                        w,
                        d,
                        tr,
                        f,
                    ) && t.2@ == create_output(caller, value, pm(*init), w, d, tr, f),
                    Capture::Trap => false,
                }
            }),
        decreases old(self).inner.max_depth - old(self).inner.depth_spec(), 3int,
    {
        if self.is_tracing {
            let gas_limit = match target_gas {
                Some(g) => g,
                None => u64::MAX,
            };
            return self.trace_create(caller, value, init, gas_limit);
        }
        let r = self.inner.create_inner(caller, scheme, value, init, target_gas);
        proof {
            assert(logs_model(self.step_logs@) =~= logs_model(old(self).step_logs@)
                + Seq::<Rec>::empty());
        }
        r
    }

    /// Forwards the balance query to the engine.
    pub fn balance(&self, address: u64) -> (r: u64)
        requires
            self.inner.wf(),
        ensures
            r == balance_of(self.inner.accounts@, address),
    {
        self.inner.balance(address)
    }

    /// Forwards the code-size query to the engine.
    pub fn code_size(&self, address: u64) -> (r: u64)
        requires
            self.inner.wf(),
        ensures
            r == code_of(self.inner.accounts@, address).len(),
    {
        self.inner.code_size(address)
    }

    /// Forwards the code-hash query to the engine.
    pub fn code_hash(&self, address: u64) -> (r: u64)
        requires
            self.inner.wf(),
        ensures
            r == code_hash_of(self.inner.accounts@, address),
    {
        self.inner.code_hash(address)
    }

    /// Forwards the code query to the engine.
    pub fn code(&self, address: u64) -> (r: Vec<u8>)
        requires
            self.inner.wf(),
        ensures
            r@ == code_of(self.inner.accounts@, address),
    {
        self.inner.code(address)
    }

    /// Forwards the storage read to the engine.
    pub fn storage(&self, address: u64, index: u64) -> (r: u64)
        requires
            self.inner.wf(),
        ensures
            r == slookup_or_zero(storage_pairs(self.inner.accounts@, address), index),
    {
        self.inner.storage(address, index)
    }

    /// Forwards the pre-transaction storage read to the engine.
    pub fn original_storage(&self, address: u64, index: u64) -> (r: u64)
        requires
            self.inner.wf(),
        ensures
            r == slookup_or_zero(original_pairs(self.inner.accounts@, address), index),
    {
        self.inner.original_storage(address, index)
    }

    /// Forwards the account-existence query to the engine.
    pub fn account_exists(&self, address: u64) -> (r: bool)
        requires
            self.inner.wf(),
        ensures
            r == has_account(self.inner.accounts@, address),
    {
        self.inner.account_exists(address)
    }

    /// Forwards the gas-remaining query to the engine.
    pub fn gas_left(&self) -> (r: u64)
        ensures
            r == self.inner.gas,
    {
        self.inner.gas()
    }

    /// Forwards the gas-price query to the engine's block metadata.
    pub fn gas_price(&self) -> (r: u64)
        ensures
            r == self.inner.block.gas_price,
    {
        self.inner.block.gas_price
    }

    /// Forwards the transaction-origin query to the engine's block
    /// metadata.
    pub fn origin(&self) -> (r: u64)
        ensures
            r == self.inner.block.origin,
    {
        self.inner.block.origin
    }

    /// Forwards the block-hash query to the engine, which derives it
    /// from the chain identifier and the number.
    pub fn block_hash(&self, number: u64) -> (r: u64)
        ensures
            r == number ^ self.inner.block.chain_id,
    {
        number ^ self.inner.block.chain_id
    }

    /// Forwards the block-number query to the engine's block metadata.
    pub fn block_number(&self) -> (r: u64)
        ensures
            r == self.inner.block.block_number,
    {
        self.inner.block.block_number
    }

    /// Forwards the beneficiary query to the engine's block metadata.
    pub fn block_coinbase(&self) -> (r: u64)
        ensures
            r == self.inner.block.block_coinbase,
    {
        self.inner.block.block_coinbase
    }

    /// Forwards the timestamp query to the engine's block metadata.
    pub fn block_timestamp(&self) -> (r: u64)
        ensures
            r == self.inner.block.block_timestamp,
    {
        self.inner.block.block_timestamp
    }

    /// Forwards the difficulty query to the engine's block metadata.
    pub fn block_difficulty(&self) -> (r: u64)
        ensures
            r == self.inner.block.block_difficulty,
    {
        self.inner.block.block_difficulty
    }

    /// Forwards the block-gas-limit query to the engine's block
    /// metadata.
    pub fn block_gas_limit(&self) -> (r: u64)
        ensures
            r == self.inner.block.block_gas_limit,
    {
        self.inner.block.block_gas_limit
    }

    /// Forwards the chain-identifier query to the engine's block
    /// metadata.
    pub fn chain_id(&self) -> (r: u64)
        ensures
            r == self.inner.block.chain_id,
    {
        self.inner.block.chain_id
    }

    /// Forwards the deletion-status query to the engine.
    pub fn deleted(&self, address: u64) -> (r: bool)
        ensures
            r == self.inner.deletions@.contains(address),
    {
        self.inner.deleted(address)
    }

    /// Forwards a storage write to the engine and propagates its
    /// outcome unchanged.
    pub fn set_storage(&mut self, address: u64, index: u64, value: u64) -> (r: Result<
        (),
        ExitError,
    >)
        requires
            old(self).inner.wf(),
        ensures
            final(self).inner.wf(),
            final(self).is_tracing == old(self).is_tracing,
            final(self).step_logs == old(self).step_logs,
            final(self).inner.substates == old(self).inner.substates,
            final(self).inner.frame_eq(old(self).inner),
            r == Ok::<(), ExitError>(()),
            storage_pairs(final(self).inner.accounts@, address) == storage_pairs(
                old(self).inner.accounts@,
                address,
            ).push((index, value)),
            forall|x: u64|
                x != address ==> #[trigger] storage_pairs(final(self).inner.accounts@, x)
                    == storage_pairs(old(self).inner.accounts@, x),
    {
        self.inner.set_storage(address, index, value)
    }

    /// Forwards a log emission to the engine and propagates its outcome
    /// unchanged.
    pub fn log(&mut self, address: u64, topics: Vec<u64>, data: Vec<u8>) -> (r: Result<
        (),
        ExitError,
    >)
        requires
            old(self).inner.wf(),
        ensures
            final(self).inner.wf(),
            final(self).is_tracing == old(self).is_tracing,
            final(self).step_logs == old(self).step_logs,
            final(self).inner.accounts == old(self).inner.accounts,
            final(self).inner.substates == old(self).inner.substates,
            r == Ok::<(), ExitError>(()),
            final(self).inner.logs@.len() == old(self).inner.logs@.len() + 1,
            final(self).inner.logs@.drop_last() == old(self).inner.logs@,
            final(self).inner.logs@.last().address == address,
            final(self).inner.logs@.last().topics@ == topics@,
            final(self).inner.logs@.last().data@ == data@,
    {
        self.inner.log(address, topics, data)
    }

    /// Forwards a deletion marking to the engine and propagates its
    /// outcome unchanged.
    pub fn mark_delete(&mut self, address: u64, target: u64) -> (r: Result<(), ExitError>)
        requires
            old(self).inner.wf(),
        ensures
            final(self).inner.wf(),
            final(self).is_tracing == old(self).is_tracing,
            final(self).step_logs == old(self).step_logs,
            final(self).inner.accounts == old(self).inner.accounts,
            final(self).inner.substates == old(self).inner.substates,
            r == Ok::<(), ExitError>(()),
            final(self).inner.deletions@ == old(self).inner.deletions@.push(address),
    {
        self.inner.mark_delete(address, target)
    }

    /// Forwards instruction pre-validation to the engine; the tracer
    /// performs no validation of its own.
    pub fn pre_validate(&self, context: &Context, opcode: OpId, stack: &Vec<u64>) -> (r: Result<
        (),
        ExitError,
    >)
        ensures
            r == Ok::<(), ExitError>(()),
    {
        self.inner.pre_validate(context, opcode, stack)
    }
}

} // verus!
