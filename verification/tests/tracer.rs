use evm_tracer::engine::{Account, BlockEnv, Engine};
use evm_tracer::exit::{Capture, ExitError, ExitFatal, ExitReason, ExitSucceed};
use evm_tracer::machine::{
    CallEvent, Context, CreateScheme, Program, StepEvent, StepOutcome, Transfer,
};
use evm_tracer::opcode::{ExternalOpcode, OpId, Opcode};
use evm_tracer::tracer::TraceExecutorWrapper;

fn block() -> BlockEnv {
    BlockEnv {
        gas_price: 7,
        origin: 0xa11ce,
        block_number: 42,
        block_coinbase: 0xc01d,
        block_timestamp: 1_600_000_000,
        block_difficulty: 131_072,
        block_gas_limit: 8_000_000,
        chain_id: 1287,
    }
}

fn empty_program() -> Program {
    Program {
        code: Vec::new(),
        steps: Vec::new(),
        end: ExitReason::Succeed(ExitSucceed::Stopped),
        ret: Vec::new(),
    }
}

fn account(address: u64, program: Program, storage: Vec<(u64, u64)>) -> Account {
    Account {
        address,
        balance: 1000,
        nonce: 5,
        code_hash: 0xbeef,
        program,
        storage,
        original_storage: vec![(1, 11)],
    }
}

fn step(op: u8, pc: u64, outcome: StepOutcome) -> StepEvent {
    StepEvent {
        op: OpId::Basic(Opcode(op)),
        stack: vec![3, 4],
        memory: vec![0, 1, 2],
        gas_left: 90_000,
        table_cost: Ok(5),
        reduced_cost: Ok(3),
        position: Ok(pc),
        outcome,
    }
}

fn engine_with(accounts: Vec<Account>) -> Engine {
    Engine::new(accounts, block(), 100_000, 1024)
}

#[test]
fn empty_program_yields_no_records() {
    let eng = engine_with(vec![account(0x10, empty_program(), vec![])]);
    let mut w = TraceExecutorWrapper::new(eng, true);
    let r = w.trace_call(0x1, 0x10, 0, vec![], 21_000);
    match r {
        Capture::Exit((reason, output)) => {
            assert_eq!(reason, ExitReason::Succeed(ExitSucceed::Stopped));
            assert!(output.is_empty());
        }
        Capture::Trap => panic!("trap"),
    }
    assert_eq!(w.step_logs.len(), 0);
}

#[test]
fn missing_account_behaves_as_empty_program() {
    let eng = engine_with(vec![]);
    let mut w = TraceExecutorWrapper::new(eng, true);
    let r = w.trace_call(0x1, 0x99, 0, vec![], 21_000);
    match r {
        Capture::Exit((reason, output)) => {
            assert_eq!(reason, ExitReason::Succeed(ExitSucceed::Stopped));
            assert!(output.is_empty());
        }
        Capture::Trap => panic!("trap"),
    }
    assert_eq!(w.step_logs.len(), 0);
}

#[test]
fn cost_failure_terminates_with_zero_records() {
    let mut ev = step(0x01, 0, StepOutcome::Continue);
    ev.table_cost = Err(ExitError::OutOfGas);
    let program = Program {
        code: vec![0x01],
        steps: vec![ev],
        end: ExitReason::Succeed(ExitSucceed::Stopped),
        ret: Vec::new(),
    };
    let eng = engine_with(vec![account(0x10, program, vec![])]);
    let mut w = TraceExecutorWrapper::new(eng, true);
    let r = w.trace_call(0x1, 0x10, 0, vec![], 21_000);
    match r {
        Capture::Exit((reason, output)) => {
            assert_eq!(reason, ExitReason::Error(ExitError::OutOfGas));
            assert!(output.is_empty());
        }
        Capture::Trap => panic!("trap"),
    }
    assert_eq!(w.step_logs.len(), 0);
}

#[test]
fn gasometer_failure_terminates_with_zero_records() {
    let mut ev = step(0x01, 0, StepOutcome::Continue);
    ev.reduced_cost = Err(ExitError::OutOfGas);
    let program = Program {
        code: vec![0x01],
        steps: vec![ev],
        end: ExitReason::Succeed(ExitSucceed::Stopped),
        ret: Vec::new(),
    };
    let eng = engine_with(vec![account(0x10, program, vec![])]);
    let mut w = TraceExecutorWrapper::new(eng, true);
    let r = w.trace_call(0x1, 0x10, 0, vec![], 21_000);
    match r {
        Capture::Exit((reason, _)) => {
            assert_eq!(reason, ExitReason::Error(ExitError::OutOfGas));
        }
        Capture::Trap => panic!("trap"),
    }
    assert_eq!(w.step_logs.len(), 0);
}

#[test]
fn position_failure_terminates_with_its_reason() {
    let mut ev = step(0x56, 0, StepOutcome::Continue);
    ev.position = Err(ExitReason::Error(ExitError::InvalidJump));
    let program = Program {
        code: vec![0x56],
        steps: vec![ev],
        end: ExitReason::Succeed(ExitSucceed::Stopped),
        ret: Vec::new(),
    };
    let eng = engine_with(vec![account(0x10, program, vec![])]);
    let mut w = TraceExecutorWrapper::new(eng, true);
    let r = w.trace_call(0x1, 0x10, 0, vec![], 21_000);
    match r {
        Capture::Exit((reason, _)) => {
            assert_eq!(reason, ExitReason::Error(ExitError::InvalidJump));
        }
        Capture::Trap => panic!("trap"),
    }
    assert_eq!(w.step_logs.len(), 0);
}

#[test]
fn record_snapshots_carry_the_event_state() {
    let program = Program {
        code: vec![0x01, 0x00],
        steps: vec![
            step(0x01, 0, StepOutcome::Continue),
            step(0x00, 1, StepOutcome::Exit(ExitReason::Succeed(ExitSucceed::Stopped))),
        ],
        end: ExitReason::Succeed(ExitSucceed::Stopped),
        ret: Vec::new(),
    };
    let eng = engine_with(vec![account(0x10, program, vec![(2, 99)])]);
    let mut w = TraceExecutorWrapper::new(eng, true);
    let r = w.trace_call(0x1, 0x10, 0, vec![], 21_000);
    match r {
        Capture::Exit((reason, _)) => {
            assert_eq!(reason, ExitReason::Succeed(ExitSucceed::Stopped));
        }
        Capture::Trap => panic!("trap"),
    }
    assert_eq!(w.step_logs.len(), 2);
    let first = &w.step_logs[0];
    assert_eq!(first.pc, 0);
    assert_eq!(first.gas, 90_000);
    assert_eq!(first.gas_cost, 3);
    assert_eq!(first.depth, 1);
    assert_eq!(first.memory, vec![0, 1, 2]);
    assert_eq!(first.stack, vec![3, 4]);
    assert_eq!(first.storage, vec![(2, 99)]);
    assert_eq!(first.op.name(), "ADD");
    let second = &w.step_logs[1];
    assert_eq!(second.pc, 1);
    assert_eq!(second.op.name(), "STOP");
}

#[test]
fn exit_outcome_returns_the_produced_output() {
    let program = Program {
        code: vec![0xf3],
        steps: vec![step(0xf3, 0, StepOutcome::Exit(ExitReason::Succeed(ExitSucceed::Returned)))],
        end: ExitReason::Succeed(ExitSucceed::Stopped),
        ret: vec![0xaa, 0xbb],
    };
    let eng = engine_with(vec![account(0x10, program, vec![])]);
    let mut w = TraceExecutorWrapper::new(eng, true);
    let r = w.trace_call(0x1, 0x10, 0, vec![], 21_000);
    match r {
        Capture::Exit((reason, output)) => {
            assert_eq!(reason, ExitReason::Succeed(ExitSucceed::Returned));
            assert_eq!(output, vec![0xaa, 0xbb]);
        }
        Capture::Trap => panic!("trap"),
    }
    assert_eq!(w.step_logs.len(), 1);
}

#[test]
fn revert_keeps_output_and_error_drops_it() {
    let revert_program = Program {
        code: vec![0xfd],
        steps: vec![step(0xfd, 0, StepOutcome::Exit(ExitReason::Revert))],
        end: ExitReason::Succeed(ExitSucceed::Stopped),
        ret: vec![1, 2, 3],
    };
    let eng = engine_with(vec![account(0x10, revert_program, vec![])]);
    let mut w = TraceExecutorWrapper::new(eng, true);
    match w.trace_call(0x1, 0x10, 0, vec![], 21_000) {
        Capture::Exit((reason, output)) => {
            assert_eq!(reason, ExitReason::Revert);
            assert_eq!(output, vec![1, 2, 3]);
        }
        Capture::Trap => panic!("trap"),
    }

    let error_program = Program {
        code: vec![0xfe],
        steps: vec![step(
            0xfe,
            0,
            StepOutcome::Exit(ExitReason::Error(ExitError::DesignatedInvalid)),
        )],
        end: ExitReason::Succeed(ExitSucceed::Stopped),
        ret: vec![1, 2, 3],
    };
    let eng2 = engine_with(vec![account(0x10, error_program, vec![])]);
    let mut w2 = TraceExecutorWrapper::new(eng2, true);
    match w2.trace_call(0x1, 0x10, 0, vec![], 21_000) {
        Capture::Exit((reason, output)) => {
            assert_eq!(reason, ExitReason::Error(ExitError::DesignatedInvalid));
            assert!(output.is_empty());
        }
        Capture::Trap => panic!("trap"),
    }
}

#[test]
fn trap_surfaces_as_unhandled_interrupt() {
    let program = Program {
        code: vec![0x01],
        steps: vec![step(0x01, 0, StepOutcome::Trap)],
        end: ExitReason::Succeed(ExitSucceed::Stopped),
        ret: Vec::new(),
    };
    let eng = engine_with(vec![account(0x10, program, vec![])]);
    let mut w = TraceExecutorWrapper::new(eng, true);
    match w.trace_call(0x1, 0x10, 0, vec![], 21_000) {
        Capture::Exit((reason, output)) => {
            assert_eq!(reason, ExitReason::Fatal(ExitFatal::UnhandledInterrupt));
            assert!(output.is_empty());
        }
        Capture::Trap => panic!("trap"),
    }
    assert_eq!(w.step_logs.len(), 1);
}

#[test]
fn nested_call_interleaves_records_at_greater_depth() {
    let callee = Program {
        code: vec![0x02, 0x00],
        steps: vec![
            step(0x02, 0, StepOutcome::Continue),
            step(0x00, 1, StepOutcome::Exit(ExitReason::Succeed(ExitSucceed::Stopped))),
        ],
        end: ExitReason::Succeed(ExitSucceed::Stopped),
        ret: Vec::new(),
    };
    let call_event = CallEvent {
        target: 0x20,
        transfer: Some(Transfer { source: 0x10, value: 1 }),
        input: vec![0xde],
        program: callee,
        target_gas: Some(50_000),
        is_static: false,
    };
    let outer = Program {
        code: vec![0x01, 0xf1, 0x03],
        steps: vec![
            step(0x01, 0, StepOutcome::Continue),
            StepEvent {
                op: OpId::External(ExternalOpcode(0xf1)),
                stack: vec![8],
                memory: vec![],
                gas_left: 80_000,
                table_cost: Ok(700),
                reduced_cost: Ok(700),
                position: Ok(1),
                outcome: StepOutcome::Call(call_event),
            },
            step(0x03, 2, StepOutcome::Continue),
        ],
        end: ExitReason::Succeed(ExitSucceed::Stopped),
        ret: Vec::new(),
    };
    let eng = engine_with(vec![
        account(0x10, outer, vec![(1, 7)]),
        account(0x20, empty_program(), vec![(1, 42)]),
    ]);
    let mut w = TraceExecutorWrapper::new(eng, true);
    match w.trace_call(0x1, 0x10, 0, vec![], 90_000) {
        Capture::Exit((reason, _)) => {
            assert_eq!(reason, ExitReason::Succeed(ExitSucceed::Stopped));
        }
        Capture::Trap => panic!("trap"),
    }
    let depths: Vec<u64> = w.step_logs.iter().map(|l| l.depth).collect();
    assert_eq!(depths, vec![1, 1, 2, 2, 1]);
    let pcs: Vec<u64> = w.step_logs.iter().map(|l| l.pc).collect();
    assert_eq!(pcs, vec![0, 1, 0, 1, 2]);
    assert_eq!(w.step_logs[1].op.name(), "CALL");
    // the nested records snapshot the callee's storage, not the caller's
    assert_eq!(w.step_logs[2].storage, vec![(1, 42)]);
    assert_eq!(w.step_logs[3].storage, vec![(1, 42)]);
    assert_eq!(w.step_logs[0].storage, vec![(1, 7)]);
    assert_eq!(w.step_logs[4].storage, vec![(1, 7)]);
}

#[test]
fn tracing_flag_changes_records_but_not_results() {
    let callee = Program {
        code: vec![0x02],
        steps: vec![step(0x02, 0, StepOutcome::Exit(ExitReason::Succeed(ExitSucceed::Returned)))],
        end: ExitReason::Succeed(ExitSucceed::Stopped),
        ret: vec![5, 6],
    };
    let ctx = Context { address: 0x20, caller: 0x1, apparent_value: 0 };

    let eng1 = engine_with(vec![account(0x20, empty_program(), vec![])]);
    let mut traced = TraceExecutorWrapper::new(eng1, true);
    let r1 = traced.call(0x20, None, vec![], &callee, Some(30_000), false, ctx);

    let eng2 = engine_with(vec![account(0x20, empty_program(), vec![])]);
    let mut plain = TraceExecutorWrapper::new(eng2, false);
    let r2 = plain.call(0x20, None, vec![], &callee, Some(30_000), false, ctx);

    match (r1, r2) {
        (Capture::Exit((reason1, out1)), Capture::Exit((reason2, out2))) => {
            assert_eq!(reason1, reason2);
            assert_eq!(out1, out2);
            assert_eq!(out1, vec![5, 6]);
        }
        _ => panic!("trap"),
    }
    assert_eq!(traced.step_logs.len(), 1);
    assert_eq!(plain.step_logs.len(), 0);
}

#[test]
fn create_is_deterministic_for_a_fixed_caller() {
    let init = empty_program();
    let eng = engine_with(vec![account(0x10, empty_program(), vec![])]);
    let mut w = TraceExecutorWrapper::new(eng, true);
    let a1 = match w.trace_create(0x10, 0, &init, 30_000) {
        Capture::Exit((_, address, _)) => address,
        Capture::Trap => panic!("trap"),
    };
    let a2 = match w.trace_create(0x10, 0, &init, 30_000) {
        Capture::Exit((_, address, _)) => address,
        Capture::Trap => panic!("trap"),
    };
    assert!(a1.is_some());
    assert_eq!(a1, a2);
}

#[test]
fn create_reports_address_on_revert_and_none_on_error() {
    let revert_init = Program {
        code: vec![0xfd],
        steps: Vec::new(),
        end: ExitReason::Revert,
        ret: vec![9],
    };
    let eng = engine_with(vec![]);
    let mut w = TraceExecutorWrapper::new(eng, true);
    match w.trace_create(0x7, 3, &revert_init, 30_000) {
        Capture::Exit((reason, address, output)) => {
            assert_eq!(reason, ExitReason::Revert);
            assert!(address.is_some());
            assert_eq!(output, vec![9]);
        }
        Capture::Trap => panic!("trap"),
    }

    let error_init = Program {
        code: vec![0xfe],
        steps: Vec::new(),
        end: ExitReason::Error(ExitError::OutOfGas),
        ret: vec![9],
    };
    let eng2 = engine_with(vec![]);
    let mut w2 = TraceExecutorWrapper::new(eng2, true);
    match w2.trace_create(0x7, 3, &error_init, 30_000) {
        Capture::Exit((reason, address, output)) => {
            assert_eq!(reason, ExitReason::Error(ExitError::OutOfGas));
            assert!(address.is_none());
            assert!(output.is_empty());
        }
        Capture::Trap => panic!("trap"),
    }
}

#[test]
fn nested_creation_traces_the_init_program() {
    let init = Program {
        code: vec![0x01],
        steps: vec![step(0x01, 0, StepOutcome::Exit(ExitReason::Succeed(ExitSucceed::Returned)))],
        end: ExitReason::Succeed(ExitSucceed::Stopped),
        ret: vec![0xcc],
    };
    let outer = Program {
        code: vec![0xf0],
        steps: vec![StepEvent {
            op: OpId::External(ExternalOpcode(0xf0)),
            stack: vec![],
            memory: vec![],
            gas_left: 70_000,
            table_cost: Ok(32_000),
            reduced_cost: Ok(32_000),
            position: Ok(0),
            outcome: StepOutcome::Create(evm_tracer::machine::CreateEvent {
                caller: 0x10,
                scheme: CreateScheme::Legacy { caller: 0x10 },
                value: 0,
                init,
                target_gas: Some(40_000),
            }),
        }],
        end: ExitReason::Succeed(ExitSucceed::Stopped),
        ret: Vec::new(),
    };
    let eng = engine_with(vec![account(0x10, outer, vec![])]);
    let mut w = TraceExecutorWrapper::new(eng, true);
    match w.trace_call(0x1, 0x10, 0, vec![], 90_000) {
        Capture::Exit((reason, _)) => {
            assert_eq!(reason, ExitReason::Succeed(ExitSucceed::Stopped));
        }
        Capture::Trap => panic!("trap"),
    }
    assert_eq!(w.step_logs.len(), 2);
    assert_eq!(w.step_logs[0].depth, 1);
    assert_eq!(w.step_logs[0].op.name(), "CREATE");
    assert_eq!(w.step_logs[1].depth, 2);
}

#[test]
fn call_refused_once_the_depth_budget_is_spent() {
    let eng = Engine::new(vec![], block(), 100_000, 0);
    let mut w = TraceExecutorWrapper::new(eng, true);
    match w.trace_call(0x1, 0x10, 0, vec![], 21_000) {
        Capture::Exit((reason, output)) => {
            assert_eq!(reason, ExitReason::Error(ExitError::CallTooDeep));
            assert!(output.is_empty());
        }
        Capture::Trap => panic!("trap"),
    }
    assert_eq!(w.step_logs.len(), 0);
}

#[test]
fn opcode_names_are_stable() {
    assert_eq!(Opcode(0x00).name(), "STOP");
    assert_eq!(Opcode(0x01).name(), "ADD");
    assert_eq!(Opcode(0x60).name(), "PUSH1");
    assert_eq!(Opcode(0x21).name(), "UNKNOWN");
    assert_eq!(ExternalOpcode(0x55).name(), "SSTORE");
    assert_eq!(ExternalOpcode(0xf1).name(), "CALL");
    assert_eq!(ExternalOpcode(0x05).name(), "UNKNOWN");
    assert_eq!(OpId::Basic(Opcode(0xfd)).name(), "REVERT");
    assert_eq!(OpId::External(ExternalOpcode(0xff)).name(), "SUICIDE");
}

#[test]
fn host_queries_forward_to_the_engine() {
    let eng = engine_with(vec![account(
        0x10,
        Program {
            code: vec![1, 2, 3],
            steps: Vec::new(),
            end: ExitReason::Succeed(ExitSucceed::Stopped),
            ret: Vec::new(),
        },
        vec![(4, 44), (5, 55)],
    )]);
    let w = TraceExecutorWrapper::new(eng, true);
    assert_eq!(w.balance(0x10), 1000);
    assert_eq!(w.balance(0x99), 0);
    assert_eq!(w.code(0x10), vec![1, 2, 3]);
    assert_eq!(w.code_size(0x10), 3);
    assert_eq!(w.code_size(0x99), 0);
    assert_eq!(w.code_hash(0x10), 0xbeef);
    assert_eq!(w.storage(0x10, 4), 44);
    assert_eq!(w.storage(0x10, 5), 55);
    assert_eq!(w.storage(0x10, 6), 0);
    assert_eq!(w.original_storage(0x10, 1), 11);
    assert_eq!(w.original_storage(0x10, 2), 0);
    assert!(w.account_exists(0x10));
    assert!(!w.account_exists(0x99));
    assert_eq!(w.gas_left(), 100_000);
    assert_eq!(w.gas_price(), 7);
    assert_eq!(w.origin(), 0xa11ce);
    assert_eq!(w.block_number(), 42);
    assert_eq!(w.block_coinbase(), 0xc01d);
    assert_eq!(w.block_timestamp(), 1_600_000_000);
    assert_eq!(w.block_difficulty(), 131_072);
    assert_eq!(w.block_gas_limit(), 8_000_000);
    assert_eq!(w.chain_id(), 1287);
    assert_eq!(w.block_hash(42), 42 ^ 1287);
    assert!(!w.inner.is_static());
    assert_eq!(w.inner.depth(), 0);
}

#[test]
fn host_mutations_forward_to_the_engine() {
    let eng = engine_with(vec![]);
    let mut w = TraceExecutorWrapper::new(eng, true);
    assert_eq!(w.set_storage(0x10, 4, 44), Ok(()));
    assert_eq!(w.storage(0x10, 4), 44);
    assert_eq!(w.set_storage(0x10, 4, 45), Ok(()));
    assert_eq!(w.storage(0x10, 4), 45);
    assert_eq!(w.log(0x10, vec![1, 2], vec![3]), Ok(()));
    assert_eq!(w.inner.logs.len(), 1);
    assert_eq!(w.inner.logs[0].address, 0x10);
    assert_eq!(w.inner.logs[0].topics, vec![1, 2]);
    assert_eq!(w.inner.logs[0].data, vec![3]);
    assert!(!w.deleted(0x10));
    assert_eq!(w.mark_delete(0x10, 0x20), Ok(()));
    assert!(w.deleted(0x10));
    let ctx = Context { address: 0x10, caller: 0x1, apparent_value: 0 };
    let stack = vec![1, 2];
    assert_eq!(w.pre_validate(&ctx, OpId::Basic(Opcode(0x01)), &stack), Ok(()));
}

#[test]
fn a_late_cost_failure_keeps_only_the_earlier_records() {
    let mut bad = step(0x02, 1, StepOutcome::Continue);
    bad.table_cost = Err(ExitError::StackUnderflow);
    let program = Program {
        code: vec![0x01, 0x02],
        steps: vec![step(0x01, 0, StepOutcome::Continue), bad],
        end: ExitReason::Succeed(ExitSucceed::Stopped),
        ret: Vec::new(),
    };
    let eng = engine_with(vec![account(0x10, program, vec![])]);
    let mut w = TraceExecutorWrapper::new(eng, true);
    match w.trace_call(0x1, 0x10, 0, vec![], 21_000) {
        Capture::Exit((reason, _)) => {
            assert_eq!(reason, ExitReason::Error(ExitError::StackUnderflow));
        }
        Capture::Trap => panic!("trap"),
    }
    assert_eq!(w.step_logs.len(), 1);
    assert_eq!(w.step_logs[0].pc, 0);
}

#[test]
fn creation_results_do_not_depend_on_the_tracing_flag() {
    let init = Program {
        code: vec![0x01],
        steps: vec![step(0x01, 0, StepOutcome::Exit(ExitReason::Succeed(ExitSucceed::Returned)))],
        end: ExitReason::Succeed(ExitSucceed::Stopped),
        ret: vec![7, 8],
    };
    let scheme = CreateScheme::Legacy { caller: 0x10 };

    let eng1 = engine_with(vec![account(0x10, empty_program(), vec![])]);
    let mut traced = TraceExecutorWrapper::new(eng1, true);
    let r1 = traced.create(0x10, scheme, 0, &init, Some(40_000));

    let eng2 = engine_with(vec![account(0x10, empty_program(), vec![])]);
    let mut plain = TraceExecutorWrapper::new(eng2, false);
    let r2 = plain.create(0x10, scheme, 0, &init, Some(40_000));

    match (r1, r2) {
        (Capture::Exit((reason1, addr1, out1)), Capture::Exit((reason2, addr2, out2))) => {
            assert_eq!(reason1, reason2);
            assert_eq!(addr1, addr2);
            assert_eq!(out1, out2);
            assert!(addr1.is_some());
            assert_eq!(out1, vec![7, 8]);
        }
        _ => panic!("trap"),
    }
    assert_eq!(traced.step_logs.len(), 1);
    assert_eq!(plain.step_logs.len(), 0);
}

#[test]
fn records_accumulate_across_invocations_in_order() {
    let program = Program {
        code: vec![0x01],
        steps: vec![step(0x01, 0, StepOutcome::Exit(ExitReason::Succeed(ExitSucceed::Stopped)))],
        end: ExitReason::Succeed(ExitSucceed::Stopped),
        ret: Vec::new(),
    };
    let eng = engine_with(vec![account(0x10, program, vec![])]);
    let mut w = TraceExecutorWrapper::new(eng, true);
    let _ = w.trace_call(0x1, 0x10, 0, vec![], 21_000);
    assert_eq!(w.step_logs.len(), 1);
    let _ = w.trace_call(0x1, 0x10, 0, vec![], 21_000);
    assert_eq!(w.step_logs.len(), 2);
    assert_eq!(w.step_logs[0].pc, 0);
    assert_eq!(w.step_logs[1].pc, 0);
}
