//! The shared execution context a handler task runs against: a keyed store
//! of shared resources, the structural state (the set of live entities), and
//! a queue of deferred commands.
//!
//! A handler may mutate resources directly during a call; those writes are
//! immediately visible to the caller.  Structural mutation is different: a
//! handler only *queues* it as a deferred command, tagged with the request
//! kind it was queued under, and the commands are applied at a
//! scheduler-chosen synchronization point — `apply_from` for one handler's
//! own commands, `apply_pending` for the whole queue — never during the
//! call itself.

use vstd::prelude::*;

verus! {

/// A deferred effect: a mutation queued during a call and applied later, at
/// a scheduler-defined synchronization point.
#[derive(Clone, Copy, Debug, PartialEq, Eq)]
pub enum Command {
    /// Create a new entity.  Its identity is assigned when the command is
    /// applied, not when it is queued.
    Spawn,
    /// Overwrite the resource with identity `res`; a command naming an
    /// identity outside the store is dropped when applied.
    SetResource { res: u64, value: u64 },
}

/// A deferred command together with the request kind of the handler that
/// queued it, so that each handler's synchronization point applies that
/// handler's own commands and no other's.
#[derive(Clone, Copy, Debug, PartialEq, Eq)]
pub struct QueuedCommand {
    /// The request kind of the handler that queued the command.
    pub source: u64,
    /// The queued mutation.
    pub command: Command,
}

/// The mathematical value of an execution context.
pub struct CtxView {
    /// Resource identity `i` holds value `resources[i]`.
    pub resources: Seq<u64>,
    /// Identities of the live entities, in creation order.
    pub entities: Seq<u64>,
    /// Deferred commands, oldest first.
    pub pending: Seq<QueuedCommand>,
}

/// The shared execution context: plain shared state plus the queue of
/// deferred commands.
pub struct ExecContext {
    /// Resource identity `i` holds value `resources[i]`.
    pub resources: Vec<u64>,
    /// Identities of the live entities, in creation order.
    pub entities: Vec<u64>,
    /// Deferred commands, oldest first.
    pub pending: Vec<QueuedCommand>,
}

impl View for ExecContext {
    type V = CtxView;

    open spec fn view(&self) -> CtxView {
        CtxView { resources: self.resources@, entities: self.entities@, pending: self.pending@ }
    }
}

/// What applying one deferred command does to the resources and entities.
pub open spec fn apply_one(res: Seq<u64>, ents: Seq<u64>, c: Command) -> (Seq<u64>, Seq<u64>) {
    match c {
        Command::Spawn => (res, ents.push(ents.len() as u64)),
        Command::SetResource { res: r, value } => if r < res.len() {
            (res.update(r as int, value), ents)
        } else {
            (res, ents)
        },
    }
}

/// Applies a queue of deferred commands in order, oldest first, whatever
/// handler queued each.
pub open spec fn apply_commands(res: Seq<u64>, ents: Seq<u64>, cmds: Seq<QueuedCommand>) -> (
    Seq<u64>,
    Seq<u64>,
)
    decreases cmds.len(),
{
    if cmds.len() == 0 {
        (res, ents)
    } else {
        let step = apply_one(res, ents, cmds[0].command);
        apply_commands(step.0, step.1, cmds.drop_first())
    }
}

/// The context after all of its deferred commands have been applied and the
/// queue drained.
pub open spec fn spec_apply(c: CtxView) -> CtxView {
    let after = apply_commands(c.resources, c.entities, c.pending);
    CtxView { resources: after.0, entities: after.1, pending: Seq::empty() }
}

/// The outcome of applying one handler's deferred commands: the state
/// afterwards and the commands of other handlers, still queued in order.
pub struct ApplyResult {
    /// Resource values after the apply.
    pub resources: Seq<u64>,
    /// Live entities after the apply.
    pub entities: Seq<u64>,
    /// The commands other handlers queued, kept in their original order.
    pub remaining: Seq<QueuedCommand>,
}

/// Applies, in queue order, exactly the commands queued under `source`;
/// every other command stays queued, in order.
pub open spec fn spec_apply_from(
    res: Seq<u64>,
    ents: Seq<u64>,
    cmds: Seq<QueuedCommand>,
    source: u64,
) -> ApplyResult
    decreases cmds.len(),
{
    if cmds.len() == 0 {
        ApplyResult { resources: res, entities: ents, remaining: cmds }
    } else if cmds[0].source == source {
        let step = apply_one(res, ents, cmds[0].command);
        spec_apply_from(step.0, step.1, cmds.drop_first(), source)
    } else {
        let rest = spec_apply_from(res, ents, cmds.drop_first(), source);
        ApplyResult {
            resources: rest.resources,
            entities: rest.entities,
            remaining: seq![cmds[0]] + rest.remaining,
        }
    }
}

/// A handler that queued nothing is a no-op at its apply point: if no
/// pending command carries `source`, applying for `source` changes nothing
/// and keeps the whole queue.
pub proof fn lemma_apply_from_unrelated(
    res: Seq<u64>,
    ents: Seq<u64>,
    cmds: Seq<QueuedCommand>,
    source: u64,
)
    requires
        forall|i: int| 0 <= i < cmds.len() ==> (#[trigger] cmds[i]).source != source,
    ensures
        spec_apply_from(res, ents, cmds, source).resources == res,
        spec_apply_from(res, ents, cmds, source).entities == ents,
        spec_apply_from(res, ents, cmds, source).remaining == cmds,
    decreases cmds.len(),
{
    if cmds.len() > 0 {
        assert(cmds[0].source != source);
        lemma_apply_from_unrelated(res, ents, cmds.drop_first(), source);
        assert(seq![cmds[0]] + cmds.drop_first() =~= cmds);
    }
}

impl ExecContext {
    /// A fresh context with `n_resources` shared resources, all zero, no
    /// entities and no pending commands.
    pub fn new(n_resources: usize) -> (r: ExecContext)
        ensures
            r@.resources.len() == n_resources,
            forall|i: int| 0 <= i < n_resources ==> r@.resources[i] == 0,
            r@.entities == Seq::<u64>::empty(),
            r@.pending == Seq::<QueuedCommand>::empty(),
    {
        let mut resources: Vec<u64> = Vec::new();
        let mut i: usize = 0;
        while i < n_resources
            invariant
                i <= n_resources,
                resources@.len() == i,
                forall|j: int| 0 <= j < i ==> resources@[j] == 0,
            decreases n_resources - i,
        {
            resources.push(0);
            i += 1;
        }
        ExecContext { resources, entities: Vec::new(), pending: Vec::new() }
    }

    /// Drains the whole deferred-command queue, applying every command in
    /// order: the context-wide synchronization barrier.
    pub fn apply_pending(&mut self)
        ensures
            final(self)@ == spec_apply(old(self)@),
    {
        let ghost orig: CtxView = self@;
        proof {
            assert(orig.pending.skip(0) =~= orig.pending);
        }
        let n = self.pending.len();
        let mut i: usize = 0;
        while i < n
            invariant
                i <= n,
                n == self.pending@.len(),
                self.pending@ == orig.pending,
                apply_commands(orig.resources, orig.entities, orig.pending) == apply_commands(
                    self.resources@,
                    self.entities@,
                    self.pending@.skip(i as int),
                ),
            decreases n - i,
        {
            let ghost before_res = self.resources@;
            let ghost before_ents = self.entities@;
            let qc = self.pending[i];
            match qc.command {
                Command::Spawn => {
                    let id = self.entities.len() as u64;
                    self.entities.push(id);
                },
                Command::SetResource { res, value } => {
                    if res < self.resources.len() as u64 {
                        self.resources.set(res as usize, value);
                    }
                },
            }
            proof {
                let rest = orig.pending.skip(i as int);
                assert(rest[0] == orig.pending[i as int]);
                assert(rest.drop_first() =~= orig.pending.skip(i + 1));
                assert((self.resources@, self.entities@) == apply_one(
                    before_res,
                    before_ents,
                    orig.pending[i as int].command,
                ));
            }
            i += 1;
        }
        proof {
            assert(orig.pending.skip(n as int) =~= Seq::<QueuedCommand>::empty());
        }
        self.pending = Vec::new();
    }

    /// One handler's synchronization point: applies, in queue order,
    /// exactly the commands queued under `source`, and keeps every other
    /// handler's commands queued, in order.
    pub fn apply_from(&mut self, source: u64)
        ensures
            final(self)@.resources == spec_apply_from(
                old(self)@.resources,
                old(self)@.entities,
                old(self)@.pending,
                source,
            ).resources,
            final(self)@.entities == spec_apply_from(
                old(self)@.resources,
                old(self)@.entities,
                old(self)@.pending,
                source,
            ).entities,
            final(self)@.pending == spec_apply_from(
                old(self)@.resources,
                old(self)@.entities,
                old(self)@.pending,
                source,
            ).remaining,
    {
        let ghost orig: CtxView = self@;
        let ghost target: ApplyResult = spec_apply_from(
            orig.resources,
            orig.entities,
            orig.pending,
            source,
        );
        proof {
            assert(orig.pending.skip(0) =~= orig.pending);
            assert(Seq::<QueuedCommand>::empty() + target.remaining =~= target.remaining);
        }
        let n = self.pending.len();
        let mut kept: Vec<QueuedCommand> = Vec::new();
        let mut i: usize = 0;
        while i < n
            invariant
                i <= n,
                n == self.pending@.len(),
                self.pending@ == orig.pending,
                target.resources == spec_apply_from(
                    self.resources@,
                    self.entities@,
                    orig.pending.skip(i as int),
                    source,
                ).resources,
                target.entities == spec_apply_from(
                    self.resources@,
                    self.entities@,
                    orig.pending.skip(i as int),
                    source,
                ).entities,
                target.remaining == kept@ + spec_apply_from(
                    self.resources@,
                    self.entities@,
                    orig.pending.skip(i as int),
                    source,
                ).remaining,
            decreases n - i,
        {
            let ghost before_res = self.resources@;
            let ghost before_ents = self.entities@;
            let ghost before_kept = kept@;
            let ghost rest = orig.pending.skip(i as int);
            proof {
                assert(rest[0] == orig.pending[i as int]);
                assert(rest.drop_first() =~= orig.pending.skip(i + 1));
            }
            let qc = self.pending[i];
            if qc.source == source {
                match qc.command {
                    Command::Spawn => {
                        let id = self.entities.len() as u64;
                        self.entities.push(id);
                    },
                    Command::SetResource { res, value } => {
                        if res < self.resources.len() as u64 {
                            self.resources.set(res as usize, value);
                        }
                    },
                }
                proof {
                    assert((self.resources@, self.entities@) == apply_one(
                        before_res,
                        before_ents,
                        orig.pending[i as int].command,
                    ));
                }
            } else {
                kept.push(qc);
                proof {
                    let after = spec_apply_from(
                        self.resources@,
                        self.entities@,
                        orig.pending.skip(i + 1),
                        source,
                    );
                    assert(spec_apply_from(before_res, before_ents, rest, source).remaining
                        == seq![rest[0]] + after.remaining);
                    assert(before_kept + (seq![rest[0]] + after.remaining) =~= kept@
                        + after.remaining);
                }
            }
            i += 1;
        }
        proof {
            assert(orig.pending.skip(n as int) =~= Seq::<QueuedCommand>::empty());
            assert(kept@ + Seq::<QueuedCommand>::empty() =~= kept@);
        }
        self.pending = kept;
    }
}

} // verus!
