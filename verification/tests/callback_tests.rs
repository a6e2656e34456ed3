use callbacks::callback::{Callback, CallbackError, OptionCallback};
use callbacks::context::{Command, ExecContext, QueuedCommand};
use callbacks::footprint::Footprint;
use callbacks::registry::Registry;
use callbacks::system::{CombineRule, PrimOp, PureFn, Task};

fn fp(reads: Vec<u64>, writes: Vec<u64>) -> Footprint {
    Footprint { reads, writes }
}

fn pure_task(f: PureFn) -> Task {
    Task::Primitive { footprint: fp(vec![], vec![]), op: PrimOp::Compute(f) }
}

fn handle_for(reg: &Registry, caller: &mut Footprint, kind: u64) -> Callback {
    let state = Callback::init_state(reg, caller, kind).expect("construction must succeed");
    Callback::get_param(state, reg).expect("entry must be present")
}

#[test]
fn round_trip_pure_handler() {
    let mut reg = Registry::new();
    reg.register(1, pure_task(PureFn::AddSat(5))).unwrap();
    let mut caller = fp(vec![], vec![]);
    let mut cb = handle_for(&reg, &mut caller, 1);
    let mut ctx = ExecContext::new(0);
    for x in [0u64, 1, 10, 1000, u64::MAX - 5] {
        assert_eq!(cb.request(&reg, &mut ctx, x), x + 5);
    }
    assert_eq!(cb.request(&reg, &mut ctx, u64::MAX), u64::MAX);
}

#[test]
fn round_trip_mutating_handler() {
    let mut reg = Registry::new();
    // The handler writes its request into resource 0; a later read sees it.
    let writer = Task::Primitive { footprint: fp(vec![], vec![0]), op: PrimOp::WriteRes { res: 0 } };
    reg.register(1, writer).unwrap();
    let reader = Task::Primitive { footprint: fp(vec![0], vec![]), op: PrimOp::ReadRes { res: 0 } };
    reg.register(2, reader).unwrap();

    // Two distinct caller tasks: the merged write claim would otherwise
    // make a second callback on the same caller conflict, by design.
    let mut writing_caller = fp(vec![], vec![]);
    let mut write_cb = handle_for(&reg, &mut writing_caller, 1);
    let mut reading_caller = fp(vec![], vec![]);
    let mut read_cb = handle_for(&reg, &mut reading_caller, 2);

    let mut ctx = ExecContext::new(1);
    assert_eq!(write_cb.request(&reg, &mut ctx, 99), 99);
    // The write is immediately visible to the caller.
    assert_eq!(ctx.resources[0], 99);
    assert_eq!(read_cb.request(&reg, &mut ctx, 0), 99);
}

#[test]
fn pipeline_and_combinator_results() {
    let mut reg = Registry::new();
    // (x + 1) piped into (result + 2)
    let pipe = Task::Pipe {
        first: Box::new(pure_task(PureFn::AddSat(1))),
        second: Box::new(pure_task(PureFn::AddSat(2))),
    };
    reg.register(1, pipe).unwrap();
    // const 2 and const 3, summed
    let combine = Task::Combine {
        rule: CombineRule::SumSat,
        left: Box::new(pure_task(PureFn::Const(2))),
        right: Box::new(pure_task(PureFn::Const(3))),
    };
    reg.register(2, combine).unwrap();
    // const 10 adapted by +1
    let adapt = Task::Adapt { map: PureFn::AddSat(1), inner: Box::new(pure_task(PureFn::Const(10))) };
    reg.register(3, adapt).unwrap();

    let mut caller = fp(vec![], vec![]);
    let mut ctx = ExecContext::new(0);
    assert_eq!(handle_for(&reg, &mut caller, 1).request(&reg, &mut ctx, 39), 42);
    assert_eq!(handle_for(&reg, &mut caller, 2).request(&reg, &mut ctx, 0), 5);
    assert_eq!(handle_for(&reg, &mut caller, 3).request(&reg, &mut ctx, 0), 11);
}

#[test]
fn missing_registration_fails_construction() {
    let reg = Registry::new();
    let mut caller = fp(vec![], vec![]);
    let r = Callback::init_state(&reg, &mut caller, 1);
    assert_eq!(r, Err(CallbackError::Missing { kind: 1 }));
    assert_eq!(caller.reads, vec![]);
    assert_eq!(caller.writes, vec![]);
}

#[test]
fn conflicting_writer_fails_construction() {
    let mut reg = Registry::new();
    let writer = Task::Primitive { footprint: fp(vec![], vec![7]), op: PrimOp::WriteRes { res: 7 } };
    reg.register(1, writer).unwrap();
    // The caller also claims exclusive write access to resource 7.
    let mut caller = fp(vec![], vec![7]);
    let r = Callback::init_state(&reg, &mut caller, 1);
    assert_eq!(r, Err(CallbackError::Conflict { kind: 1 }));
    assert_eq!(caller.writes, vec![7]);
}

#[test]
fn reading_caller_and_reading_handler_succeed() {
    let mut reg = Registry::new();
    let reader = Task::Primitive { footprint: fp(vec![7], vec![]), op: PrimOp::ReadRes { res: 7 } };
    reg.register(1, reader).unwrap();
    let mut caller = fp(vec![7], vec![]);
    let r = Callback::init_state(&reg, &mut caller, 1);
    assert_eq!(r, Ok(1));
}

#[test]
fn construction_merges_callee_footprint_into_caller() {
    let mut reg = Registry::new();
    let writer = Task::Primitive { footprint: fp(vec![2], vec![3]), op: PrimOp::Compute(PureFn::Identity) };
    reg.register(1, writer).unwrap();
    let mut caller = fp(vec![1], vec![]);
    Callback::init_state(&reg, &mut caller, 1).unwrap();
    let mut reads = caller.reads.clone();
    reads.sort();
    let mut writes = caller.writes.clone();
    writes.sort();
    assert_eq!(reads, vec![1, 2]);
    // Besides the entry's own claims the caller gains the exclusive write
    // claim on the entry itself.
    let entry_claim = reg.lookup(1).unwrap().entry_res;
    let mut expected_writes = vec![3, entry_claim];
    expected_writes.sort();
    assert_eq!(writes, expected_writes);
    // The merged footprint now takes part in the caller's later conflict
    // checks: a second callback writing resource 3 is rejected.
    let other_writer = Task::Primitive { footprint: fp(vec![], vec![3]), op: PrimOp::WriteRes { res: 3 } };
    reg.register(2, other_writer).unwrap();
    let r = Callback::init_state(&reg, &mut caller, 2);
    assert_eq!(r, Err(CallbackError::Conflict { kind: 2 }));
}

#[test]
fn deferred_spawn_invisible_until_apply() {
    let mut reg = Registry::new();
    let deferring = Task::Primitive { footprint: fp(vec![], vec![]), op: PrimOp::Defer(Command::Spawn) };
    reg.register(1, deferring).unwrap();
    let mut caller = fp(vec![], vec![]);
    let mut cb = handle_for(&reg, &mut caller, 1);
    let mut ctx = ExecContext::new(0);
    // The direct return value is available immediately...
    assert_eq!(cb.request(&reg, &mut ctx, 42), 42);
    // ...but the structural mutation is only queued, not applied, and is
    // tagged with the handle's request kind.
    assert_eq!(ctx.entities.len(), 0);
    assert_eq!(ctx.pending, vec![QueuedCommand { source: 1, command: Command::Spawn }]);
    // At the scheduler's apply point the mutation becomes visible.
    cb.apply(&mut ctx);
    assert_eq!(ctx.entities, vec![0]);
    assert_eq!(ctx.pending, vec![]);
}

#[test]
fn apply_applies_only_own_handlers_commands() {
    let mut reg = Registry::new();
    let spawner = Task::Primitive { footprint: fp(vec![], vec![]), op: PrimOp::Defer(Command::Spawn) };
    reg.register(1, spawner).unwrap();
    let setter = Task::Primitive {
        footprint: fp(vec![], vec![]),
        op: PrimOp::Defer(Command::SetResource { res: 0, value: 7 }),
    };
    reg.register(2, setter).unwrap();

    let mut caller_a = fp(vec![], vec![]);
    let mut cb_a = handle_for(&reg, &mut caller_a, 1);
    let mut caller_b = fp(vec![], vec![]);
    let mut cb_b = handle_for(&reg, &mut caller_b, 2);

    let mut ctx = ExecContext::new(1);
    cb_a.request(&reg, &mut ctx, 0);
    cb_b.request(&reg, &mut ctx, 0);
    assert_eq!(ctx.pending.len(), 2);

    // The first handle's apply point runs its own spawn and nothing else:
    // the other callee's command stays queued.
    cb_a.apply(&mut ctx);
    assert_eq!(ctx.entities, vec![0]);
    assert_eq!(ctx.resources, vec![0]);
    assert_eq!(
        ctx.pending,
        vec![QueuedCommand { source: 2, command: Command::SetResource { res: 0, value: 7 } }]
    );

    cb_b.apply(&mut ctx);
    assert_eq!(ctx.resources, vec![7]);
    assert_eq!(ctx.pending, vec![]);
}

#[test]
fn two_callers_of_one_kind_become_incompatible() {
    let mut reg = Registry::new();
    // Even a read-only handler serializes its callers: each handle holds
    // the exclusive claim on the entry itself.
    let reader = Task::Primitive { footprint: fp(vec![5], vec![]), op: PrimOp::ReadRes { res: 5 } };
    reg.register(1, reader).unwrap();
    let mut caller_a = fp(vec![], vec![]);
    assert_eq!(Callback::init_state(&reg, &mut caller_a, 1), Ok(1));
    let mut caller_b = fp(vec![], vec![]);
    assert_eq!(Callback::init_state(&reg, &mut caller_b, 1), Ok(1));
    assert!(!caller_a.is_compatible(&caller_b));
    assert!(!caller_b.is_compatible(&caller_a));
}

#[test]
fn second_handle_for_same_entry_conflicts() {
    let mut reg = Registry::new();
    reg.register(1, pure_task(PureFn::Identity)).unwrap();
    let mut caller = fp(vec![], vec![]);
    assert_eq!(Callback::init_state(&reg, &mut caller, 1), Ok(1));
    // The caller now claims the entry exclusively; a second handle on the
    // same entry is a conflict.
    let r = Callback::init_state(&reg, &mut caller, 1);
    assert_eq!(r, Err(CallbackError::Conflict { kind: 1 }));
}

#[test]
fn deferred_commands_apply_in_order() {
    let mut ctx = ExecContext::new(1);
    ctx.pending.push(QueuedCommand { source: 1, command: Command::SetResource { res: 0, value: 5 } });
    ctx.pending.push(QueuedCommand { source: 2, command: Command::Spawn });
    ctx.pending.push(QueuedCommand { source: 1, command: Command::SetResource { res: 0, value: 9 } });
    // A command naming a resource outside the store is dropped at apply.
    ctx.pending.push(QueuedCommand { source: 2, command: Command::SetResource { res: 5, value: 1 } });
    // The context-wide barrier drains the whole queue, whatever queued it.
    ctx.apply_pending();
    assert_eq!(ctx.resources, vec![9]);
    assert_eq!(ctx.entities, vec![0]);
    assert_eq!(ctx.pending, vec![]);
}

#[test]
fn optional_handle_absent_leaves_caller_unchanged() {
    let reg = Registry::new();
    let mut caller = fp(vec![1], vec![2]);
    let state = OptionCallback::init_state(&reg, &mut caller, 1).unwrap();
    assert_eq!(state, None);
    assert_eq!(caller.reads, vec![1]);
    assert_eq!(caller.writes, vec![2]);
    let handle = OptionCallback::get_param(&state, &reg);
    assert!(handle.0.is_none());
    // An empty handle's apply point is a no-op.
    let mut ctx = ExecContext::new(0);
    ctx.pending.push(QueuedCommand { source: 1, command: Command::Spawn });
    handle.apply(&mut ctx);
    assert_eq!(ctx.pending, vec![QueuedCommand { source: 1, command: Command::Spawn }]);
}

#[test]
fn optional_handle_present_after_later_registration() {
    let mut reg = Registry::new();
    let mut caller = fp(vec![], vec![]);
    let state = OptionCallback::init_state(&reg, &mut caller, 1).unwrap();
    assert_eq!(state, None);

    reg.register(1, pure_task(PureFn::AddSat(1))).unwrap();
    // A new caller activation sees the handler.
    let mut caller2 = fp(vec![], vec![]);
    let state2 = OptionCallback::init_state(&reg, &mut caller2, 1).unwrap();
    assert_eq!(state2, Some(1));
    let mut handle = OptionCallback::get_param(&state2, &reg);
    let cb = handle.0.as_mut().expect("handle must be present");
    let mut ctx = ExecContext::new(0);
    assert_eq!(cb.request(&reg, &mut ctx, 41), 42);
}

#[test]
fn optional_handle_conflict_still_fails() {
    let mut reg = Registry::new();
    let writer = Task::Primitive { footprint: fp(vec![], vec![7]), op: PrimOp::WriteRes { res: 7 } };
    reg.register(1, writer).unwrap();
    let mut caller = fp(vec![7], vec![]);
    let r = OptionCallback::init_state(&reg, &mut caller, 1);
    assert_eq!(r, Err(CallbackError::Conflict { kind: 1 }));
}
