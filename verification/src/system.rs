//! Handler tasks and their composition.
//!
//! A registered handler need not be a single primitive task: it may be a
//! sequential pipe, a combinator over two sub-tasks, or an adapter around
//! one.  `Task` is that closed set of shapes.  The footprint composer
//! derives the combined access footprint of a composite task from its
//! parts' footprints, structurally and without running it: a pipe or a
//! combinator unions its two parts, an adapter passes its part's footprint
//! through, and a primitive task reports its own declaration.
//!
//! Running a task is given an exact meaning by `spec_run`, so that the
//! blocking `request` operation of a callback handle can promise precisely
//! which response comes back and how the shared context changes.

use vstd::prelude::*;
use crate::context::{Command, CtxView, ExecContext, QueuedCommand};
use crate::footprint::Footprint;

verus! {

/// A request kind: a type tag with its associated response kind.  Identity
/// is by type; no runtime representation is needed beyond the tag itself.
pub trait Request {
    /// The response kind fixed for this request kind.
    type Response;
}

/// The input wrapper a handler task receives: the request value, wrapped as
/// the task's declared input.
#[derive(Debug)]
pub struct Req<E>(pub E);

impl<E> Req<E> {
    /// Wraps a request value as a handler task's input.
    pub fn wrap(this: E) -> (r: Req<E>)
        ensures
            r.0 == this,
    {
        Req(this)
    }
}

/// A pure function on request values, drawn from a small closed set so that
/// a task's behaviour stays statically derivable.
#[derive(Clone, Copy, Debug, PartialEq, Eq)]
pub enum PureFn {
    /// Returns its input unchanged.
    Identity,
    /// Returns a fixed value.
    Const(u64),
    /// Adds a constant, saturating at the largest value.
    AddSat(u64),
}

/// The value of a pure function on an input.
pub open spec fn pure_eval(f: PureFn, x: u64) -> u64 {
    match f {
        PureFn::Identity => x,
        PureFn::Const(k) => k,
        PureFn::AddSat(k) => if x + k <= u64::MAX {
            (x + k) as u64
        } else {
            u64::MAX
        },
    }
}

/// Evaluates a pure function.
pub fn eval_pure(f: PureFn, x: u64) -> (r: u64)
    ensures
        r == pure_eval(f, x),
{
    match f {
        PureFn::Identity => x,
        PureFn::Const(k) => k,
        PureFn::AddSat(k) => if x <= u64::MAX - k {
            x + k
        } else {
            u64::MAX
        },
    }
}

/// The strategy a combinator uses to fold its two sub-tasks' outcomes into
/// one.
#[derive(Clone, Copy, Debug, PartialEq, Eq)]
pub enum CombineRule {
    /// Keep the left sub-task's outcome.
    Left,
    /// Keep the right sub-task's outcome.
    Right,
    /// Add the two outcomes, saturating at the largest value.
    SumSat,
}

/// The value a combinator's strategy yields from its two sub-tasks'
/// outcomes.
pub open spec fn combine_eval(rule: CombineRule, a: u64, b: u64) -> u64 {
    match rule {
        CombineRule::Left => a,
        CombineRule::Right => b,
        CombineRule::SumSat => if a + b <= u64::MAX {
            (a + b) as u64
        } else {
            u64::MAX
        },
    }
}

/// What a primitive task does in one step.
#[derive(Clone, Copy, Debug, PartialEq, Eq)]
pub enum PrimOp {
    /// Compute a pure function of the input; no shared state is touched.
    Compute(PureFn),
    /// Return the current value of the resource with identity `res`.
    ReadRes { res: u64 },
    /// Overwrite the resource with identity `res` with the input, and pass
    /// the input on.
    WriteRes { res: u64 },
    /// Queue a deferred command and pass the input on.  The command's
    /// effect stays invisible until the scheduler's apply point.
    Defer(Command),
}

/// A handler task: a primitive step, or a composite built from sub-tasks.
pub enum Task {
    /// A single step, with the access footprint its own declarations
    /// report.
    Primitive { footprint: Footprint, op: PrimOp },
    /// Sequential pipe: the first task's outcome feeds the second.
    Pipe { first: Box<Task>, second: Box<Task> },
    /// Two tasks run on the same input; a strategy folds their outcomes.
    Combine { rule: CombineRule, left: Box<Task>, right: Box<Task> },
    /// A task wrapped to transform its outcome; the footprint passes
    /// through unchanged.
    Adapt { map: PureFn, inner: Box<Task> },
}

/// The resources a task reads, derived structurally from its shape.
pub open spec fn task_reads(t: Task) -> Set<u64>
    decreases t,
{
    match t {
        Task::Primitive { footprint, op } => footprint.reads_set(),
        Task::Pipe { first, second } => task_reads(*first).union(task_reads(*second)),
        Task::Combine { rule, left, right } => task_reads(*left).union(task_reads(*right)),
        Task::Adapt { map, inner } => task_reads(*inner),
    }
}

/// The resources a task writes, derived structurally from its shape.
pub open spec fn task_writes(t: Task) -> Set<u64>
    decreases t,
{
    match t {
        Task::Primitive { footprint, op } => footprint.writes_set(),
        Task::Pipe { first, second } => task_writes(*first).union(task_writes(*second)),
        Task::Combine { rule, left, right } => task_writes(*left).union(task_writes(*right)),
        Task::Adapt { map, inner } => task_writes(*inner),
    }
}

/// A task is well formed when every primitive step stays within the
/// footprint its declaration reports: a read needs a claim on the resource,
/// a write needs a write claim.
pub open spec fn task_wf(t: Task) -> bool
    decreases t,
{
    match t {
        Task::Primitive { footprint, op } => match op {
            PrimOp::Compute(f) => true,
            PrimOp::ReadRes { res } => footprint.claims().contains(res),
            PrimOp::WriteRes { res } => footprint.writes_set().contains(res),
            PrimOp::Defer(c) => true,
        },
        Task::Pipe { first, second } => task_wf(*first) && task_wf(*second),
        Task::Combine { rule, left, right } => task_wf(*left) && task_wf(*right),
        Task::Adapt { map, inner } => task_wf(*inner),
    }
}

/// Every resource the task claims has an identity below `n`, so the task
/// fits a context with `n` resources.
pub open spec fn task_bounded(t: Task, n: nat) -> bool {
    (forall|r: u64| #[trigger] task_reads(t).contains(r) ==> r < n) && (forall|r: u64|
        #[trigger] task_writes(t).contains(r) ==> r < n)
}

/// The outcome of running a task: the context afterwards and the response.
pub struct RunResult {
    /// The context after the task finished.
    pub ctx: CtxView,
    /// The task's outcome value.
    pub out: u64,
}

/// What one primitive step does to the context and the value.  A deferred
/// command is queued under `source`, the request kind the run serves, so
/// that the right handler's apply point picks it up later.
pub open spec fn spec_run_prim(op: PrimOp, c: CtxView, input: u64, source: u64) -> RunResult {
    match op {
        PrimOp::Compute(f) => RunResult { ctx: c, out: pure_eval(f, input) },
        PrimOp::ReadRes { res } => RunResult {
            ctx: c,
            out: if res < c.resources.len() {
                c.resources[res as int]
            } else {
                0
            },
        },
        PrimOp::WriteRes { res } => RunResult {
            ctx: if res < c.resources.len() {
                CtxView {
                    resources: c.resources.update(res as int, input),
                    entities: c.entities,
                    pending: c.pending,
                }
            } else {
                c
            },
            out: input,
        },
        PrimOp::Defer(cmd) => RunResult {
            ctx: CtxView {
                resources: c.resources,
                entities: c.entities,
                pending: c.pending.push(QueuedCommand { source, command: cmd }),
            },
            out: input,
        },
    }
}

/// The exact meaning of running a task on a context and an input: the
/// context afterwards and the outcome value.  `source` is the request kind
/// the run serves; every command the task defers is queued under it.
pub open spec fn spec_run(t: Task, c: CtxView, input: u64, source: u64) -> RunResult
    decreases t,
{
    match t {
        Task::Primitive { footprint, op } => spec_run_prim(op, c, input, source),
        Task::Pipe { first, second } => {
            let ra = spec_run(*first, c, input, source);
            spec_run(*second, ra.ctx, ra.out, source)
        },
        Task::Combine { rule, left, right } => {
            let ra = spec_run(*left, c, input, source);
            let rb = spec_run(*right, ra.ctx, input, source);
            RunResult { ctx: rb.ctx, out: combine_eval(rule, ra.out, rb.out) }
        },
        Task::Adapt { map, inner } => {
            let ri = spec_run(*inner, c, input, source);
            RunResult { ctx: ri.ctx, out: pure_eval(map, ri.out) }
        },
    }
}

/// Running a task never resizes the resource store, never touches the
/// entities, and only appends to the deferred-command queue: whatever was
/// pending stays pending, in order, and everything newly queued carries
/// the run's own request kind.  In particular no structural mutation
/// becomes visible during a call; it can only be queued.
pub proof fn lemma_run_preserves(t: Task, c: CtxView, input: u64, source: u64)
    ensures
        spec_run(t, c, input, source).ctx.resources.len() == c.resources.len(),
        spec_run(t, c, input, source).ctx.entities == c.entities,
        c.pending.is_prefix_of(spec_run(t, c, input, source).ctx.pending),
        forall|i: int|
            c.pending.len() <= i < spec_run(t, c, input, source).ctx.pending.len() ==> spec_run(
                t,
                c,
                input,
                source,
            ).ctx.pending[i].source == source,
    decreases t,
{
    match t {
        Task::Primitive { footprint, op } => {
            match op {
                PrimOp::Defer(cmd) => {
                    let qc = QueuedCommand { source, command: cmd };
                    assert(c.pending =~= c.pending.push(qc).subrange(0, c.pending.len() as int));
                },
                _ => {
                    assert(c.pending =~= c.pending.subrange(0, c.pending.len() as int));
                },
            }
        },
        Task::Pipe { first, second } => {
            let ra = spec_run(*first, c, input, source);
            lemma_run_preserves(*first, c, input, source);
            lemma_run_preserves(*second, ra.ctx, ra.out, source);
            lemma_appended_tagged(c.pending, ra.ctx.pending, spec_run(t, c, input, source).ctx.pending, source);
        },
        Task::Combine { rule, left, right } => {
            let ra = spec_run(*left, c, input, source);
            lemma_run_preserves(*left, c, input, source);
            lemma_run_preserves(*right, ra.ctx, input, source);
            lemma_appended_tagged(c.pending, ra.ctx.pending, spec_run(t, c, input, source).ctx.pending, source);
        },
        Task::Adapt { map, inner } => {
            lemma_run_preserves(*inner, c, input, source);
        },
    }
}

/// Two rounds of tagged appending compose: if `b` extends `a` and `c`
/// extends `b`, each time adding only commands tagged `source`, then `c`
/// extends `a` the same way.
proof fn lemma_appended_tagged(a: Seq<QueuedCommand>, b: Seq<QueuedCommand>, c: Seq<QueuedCommand>, source: u64)
    requires
        a.is_prefix_of(b),
        b.is_prefix_of(c),
        forall|i: int| a.len() <= i < b.len() ==> b[i].source == source,
        forall|i: int| b.len() <= i < c.len() ==> c[i].source == source,
    ensures
        a.is_prefix_of(c),
        forall|i: int| a.len() <= i < c.len() ==> c[i].source == source,
{
    assert(a =~= c.subrange(0, a.len() as int));
    assert forall|i: int| a.len() <= i < c.len() implies c[i].source == source by {
        if i < b.len() {
            assert(b =~= c.subrange(0, b.len() as int));
            assert(c[i] == b[i]);
        }
    }
}

/// A well-formed task writes only within its derived footprint: every
/// resource outside the task's write set keeps its value across a run.
pub proof fn lemma_run_frame(t: Task, c: CtxView, input: u64, source: u64)
    requires
        task_wf(t),
    ensures
        forall|i: int|
            0 <= i < c.resources.len() && !task_writes(t).contains(i as u64)
                ==> spec_run(t, c, input, source).ctx.resources[i] == c.resources[i],
    decreases t,
{
    match t {
        Task::Primitive { footprint, op } => {},
        Task::Pipe { first, second } => {
            let ra = spec_run(*first, c, input, source);
            lemma_run_preserves(*first, c, input, source);
            lemma_run_frame(*first, c, input, source);
            lemma_run_frame(*second, ra.ctx, ra.out, source);
        },
        Task::Combine { rule, left, right } => {
            let ra = spec_run(*left, c, input, source);
            lemma_run_preserves(*left, c, input, source);
            lemma_run_frame(*left, c, input, source);
            lemma_run_frame(*right, ra.ctx, input, source);
        },
        Task::Adapt { map, inner } => {
            lemma_run_frame(*inner, c, input, source);
        },
    }
}

/// Round trip: a handler that is the pure function `f` answers `f(x)` on
/// request `x`, exactly, and leaves the whole context untouched.
pub proof fn lemma_pure_round_trip(fp: Footprint, f: PureFn, c: CtxView, x: u64, source: u64)
    ensures
        spec_run(Task::Primitive { footprint: fp, op: PrimOp::Compute(f) }, c, x, source).out
            == pure_eval(f, x),
        spec_run(Task::Primitive { footprint: fp, op: PrimOp::Compute(f) }, c, x, source).ctx == c,
{
}

/// Composite footprint correctness for a three-stage pipeline: its derived
/// claim sets are exactly the union of the three stages' own.
pub proof fn lemma_pipeline_footprint(p: Task)
    requires
        p is Pipe,
        *p->second is Pipe,
    ensures
        task_reads(p) == task_reads(*p->first).union(
            task_reads(*(*p->second)->first),
        ).union(task_reads(*(*p->second)->second)),
        task_writes(p) == task_writes(*p->first).union(
            task_writes(*(*p->second)->first),
        ).union(task_writes(*(*p->second)->second)),
{
    reveal_with_fuel(task_reads, 3);
    reveal_with_fuel(task_writes, 3);
    assert(task_reads(p) =~= task_reads(*p->first).union(
        task_reads(*(*p->second)->first),
    ).union(task_reads(*(*p->second)->second)));
    assert(task_writes(p) =~= task_writes(*p->first).union(
        task_writes(*(*p->second)->first),
    ).union(task_writes(*(*p->second)->second)));
}

/// Composing sub-task footprints left-to-right or right-to-left yields the
/// same claim sets: a pipe nested either way derives the same footprint.
pub proof fn lemma_compose_associative(p: Task, q: Task)
    requires
        p is Pipe,
        *p->second is Pipe,
        q is Pipe,
        *q->first is Pipe,
        *p->first == *(*q->first)->first,
        *(*p->second)->first == *(*q->first)->second,
        *(*p->second)->second == *q->second,
    ensures
        task_reads(p) == task_reads(q),
        task_writes(p) == task_writes(q),
{
    reveal_with_fuel(task_reads, 3);
    reveal_with_fuel(task_writes, 3);
    assert(task_reads(p) =~= task_reads(q));
    assert(task_writes(p) =~= task_writes(q));
}

/// The capability interface every registrable handler offers: report your
/// full access footprint, derived once, at registration time.
pub trait CallbackSystem {
    /// The resources the handler may read.
    spec fn spec_reads(&self) -> Set<u64>;

    /// The resources the handler may write.
    spec fn spec_writes(&self) -> Set<u64>;

    /// Reports the handler's full access footprint.
    fn footprint(&self) -> (r: Footprint)
        ensures
            r.reads_set() == self.spec_reads(),
            r.writes_set() == self.spec_writes(),
    ;
}

impl CallbackSystem for Task {
    open spec fn spec_reads(&self) -> Set<u64> {
        task_reads(*self)
    }

    open spec fn spec_writes(&self) -> Set<u64> {
        task_writes(*self)
    }

    /// The footprint composer: derives a composite task's footprint from
    /// its parts', recursing over the task's shape.
    fn footprint(&self) -> (r: Footprint)
        decreases *self,
    {
        match self {
            Task::Primitive { footprint, op } => footprint.clone(),
            Task::Pipe { first, second } => first.footprint().merged(&second.footprint()),
            Task::Combine { rule, left, right } => left.footprint().merged(&right.footprint()),
            Task::Adapt { map, inner } => inner.footprint(),
        }
    }
}

/// Conversion into a registrable handler task, mirroring how a task is
/// brought into its runnable shape at registration time.
pub trait IntoCallbackSystem: Sized {
    /// The handler shape this converts into.
    type System;

    /// The task the conversion yields.
    spec fn spec_into(self) -> Self::System;

    /// Converts `this` into its handler task.
    fn into_system(this: Self) -> (r: Self::System)
        ensures
            r == Self::spec_into(this),
    ;
}

impl IntoCallbackSystem for Task {
    type System = Task;

    open spec fn spec_into(self) -> Task {
        self
    }

    fn into_system(this: Task) -> (r: Task) {
        this
    }
}

impl Task {
    /// Runs the task synchronously on the given context: the callee sees
    /// the current state, may mutate resources within its footprint, and
    /// may queue deferred commands, each tagged with `source`, the request
    /// kind the run serves; the outcome value is returned.
    pub fn run(&self, ctx: &mut ExecContext, input: Req<u64>, source: u64) -> (out: u64)
        requires
            task_wf(*self),
            task_bounded(*self, old(ctx)@.resources.len()),
        ensures
            final(ctx)@ == spec_run(*self, old(ctx)@, input.0, source).ctx,
            out == spec_run(*self, old(ctx)@, input.0, source).out,
        decreases *self,
    {
        match self {
            Task::Primitive { footprint, op } => {
                match op {
                    PrimOp::Compute(f) => eval_pure(*f, input.0),
                    PrimOp::ReadRes { res } => {
                        assert(footprint.claims().contains(*res));
                        assert(task_reads(*self).contains(*res) || task_writes(*self).contains(
                            *res,
                        ));
                        let n = ctx.resources.len();
                        assert(*res < n);
                        let idx = *res as usize;
                        ctx.resources[idx]
                    },
                    PrimOp::WriteRes { res } => {
                        assert(task_writes(*self).contains(*res));
                        let n = ctx.resources.len();
                        assert(*res < n);
                        let idx = *res as usize;
                        ctx.resources.set(idx, input.0);
                        input.0
                    },
                    PrimOp::Defer(c) => {
                        ctx.pending.push(QueuedCommand { source, command: *c });
                        input.0
                    },
                }
            },
            Task::Pipe { first, second } => {
                proof {
                    lemma_sub_bounded(*self, old(ctx)@.resources.len());
                    lemma_run_preserves(**first, old(ctx)@, input.0, source);
                }
                let mid = first.run(ctx, input, source);
                second.run(ctx, Req(mid), source)
            },
            Task::Combine { rule, left, right } => {
                let x = input.0;
                proof {
                    lemma_sub_bounded(*self, old(ctx)@.resources.len());
                    lemma_run_preserves(**left, old(ctx)@, x, source);
                }
                let a = left.run(ctx, Req(x), source);
                let b = right.run(ctx, Req(x), source);
                match rule {
                    CombineRule::Left => a,
                    CombineRule::Right => b,
                    CombineRule::SumSat => if a <= u64::MAX - b {
                        a + b
                    } else {
                        u64::MAX
                    },
                }
            },
            Task::Adapt { map, inner } => {
                proof {
                    lemma_sub_bounded(*self, old(ctx)@.resources.len());
                }
                let mid = inner.run(ctx, input, source);
                eval_pure(*map, mid)
            },
        }
    }
}

/// A composite task's bound carries over to each of its parts.
proof fn lemma_sub_bounded(t: Task, n: nat)
    requires
        task_bounded(t, n),
    ensures
        t is Pipe ==> task_bounded(*t->first, n) && task_bounded(*t->second, n),
        t is Combine ==> task_bounded(*t->left, n) && task_bounded(*t->right, n),
        t is Adapt ==> task_bounded(*t->inner, n),
{
    if t is Pipe {
        assert forall|r: u64| #[trigger] task_reads(*t->first).contains(r) implies r < n by {
            assert(task_reads(t).contains(r));
        }
        assert forall|r: u64| #[trigger] task_writes(*t->first).contains(r) implies r < n by {
            assert(task_writes(t).contains(r));
        }
        assert forall|r: u64| #[trigger] task_reads(*t->second).contains(r) implies r < n by {
            assert(task_reads(t).contains(r));
        }
        assert forall|r: u64| #[trigger] task_writes(*t->second).contains(r) implies r < n by {
            assert(task_writes(t).contains(r));
        }
    }
    if t is Combine {
        assert forall|r: u64| #[trigger] task_reads(*t->left).contains(r) implies r < n by {
            assert(task_reads(t).contains(r));
        }
        assert forall|r: u64| #[trigger] task_writes(*t->left).contains(r) implies r < n by {
            assert(task_writes(t).contains(r));
        }
        assert forall|r: u64| #[trigger] task_reads(*t->right).contains(r) implies r < n by {
            assert(task_reads(t).contains(r));
        }
        assert forall|r: u64| #[trigger] task_writes(*t->right).contains(r) implies r < n by {
            assert(task_writes(t).contains(r));
        }
    }
    if t is Adapt {
        assert forall|r: u64| #[trigger] task_reads(*t->inner).contains(r) implies r < n by {
            assert(task_reads(t).contains(r));
        }
        assert forall|r: u64| #[trigger] task_writes(*t->inner).contains(r) implies r < n by {
            assert(task_writes(t).contains(r));
        }
    }
}

} // verus!
