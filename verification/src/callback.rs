//! Callback handles: what a caller task receives in order to invoke a
//! registered handler synchronously.
//!
//! A handle is constructed fresh each time its caller task is prepared for
//! scheduling.  Construction looks the bound request kind up in the
//! registry, checks the entry's footprint for compatibility against the
//! caller's own declared footprint, and merges into the caller both the
//! entry's footprint and an exclusive write claim on the entry itself, so
//! the scheduler decides over the union of what caller and callee will
//! touch — and, because two handles on one entry would both write-claim it,
//! never runs two holders of the same handler concurrently.  The mandatory
//! handle treats an absent registration as a configuration error; the
//! optional variant yields an empty handle and leaves the caller's
//! footprint untouched.

use vstd::prelude::*;
use crate::context::{spec_apply_from, CtxView, ExecContext};
use crate::footprint::{
    lemma_augmented_write_compatibility, lemma_write_write_conflict, Footprint,
};
use crate::registry::Registry;
use crate::system::{lemma_run_frame, spec_run, task_bounded, task_writes, Req};

verus! {

/// A configuration error found while a callback handle is constructed.
/// Both are wiring defects meant to surface at scheduler-build time, not
/// conditions to recover from per call.
#[derive(Clone, Copy, Debug, PartialEq, Eq)]
pub enum CallbackError {
    /// No handler is registered for the kind the handle is bound to.
    Missing { kind: u64 },
    /// The caller cannot take the handle: its declared footprint is
    /// incompatible with the registered handler's, or it already holds a
    /// claim on the entry itself (a second live handle on one entry).
    Conflict { kind: u64 },
}

/// When a handle for `kind` may be constructed on a caller: the entry's
/// footprint must be compatible with the caller's own, and the caller must
/// not already hold any claim on the entry itself — the entry is borrowed
/// exclusively, so no two handles on it can be live at once.
pub open spec fn spec_can_construct(registry: Registry, caller: Footprint, kind: u64) -> bool {
    &&& caller.spec_compatible(registry.spec_footprint(kind))
    &&& !caller.claims().contains(registry.spec_entry_res(kind))
}

/// A caller's handle on the unique handler registered for one request
/// kind, granting a single blocking `request` operation.
pub struct Callback {
    kind: u64,
}

impl Callback {
    /// The request kind this handle is bound to.
    pub closed spec fn spec_kind(self) -> u64 {
        self.kind
    }

    /// Registration-time preparation of a caller that declares this
    /// callback: look the entry up, check footprint compatibility, and
    /// merge into the caller's own footprint both the entry's footprint
    /// and the exclusive write claim on the entry itself.
    ///
    /// An absent entry, an incompatible footprint, and a caller already
    /// claiming the entry are all configuration errors; the caller's
    /// footprint is then left untouched.  On success the returned state is
    /// the validated kind and the caller's footprint has become the union
    /// plus the entry claim.
    pub fn init_state(registry: &Registry, caller: &mut Footprint, kind: u64) -> (r: Result<
        u64,
        CallbackError,
    >)
        requires
            registry.inv(),
        ensures
            !registry.spec_contains(kind) ==> r is Err
                && r->Err_0 == (CallbackError::Missing { kind })
                && *final(caller) == *old(caller),
            registry.spec_contains(kind) && !spec_can_construct(*registry, *old(caller), kind)
                ==> r is Err && r->Err_0 == (CallbackError::Conflict { kind })
                && *final(caller) == *old(caller),
            registry.spec_contains(kind) && spec_can_construct(*registry, *old(caller), kind)
                ==> r is Ok && r->Ok_0 == kind
                && final(caller).reads_set() == old(caller).reads_set().union(
                registry.spec_footprint(kind).reads_set(),
            )
                && final(caller).writes_set() == old(caller).writes_set().union(
                registry.spec_footprint(kind).writes_set(),
            ).insert(registry.spec_entry_res(kind)),
    {
        match registry.lookup(kind) {
            None => Err(CallbackError::Missing { kind }),
            Some(entry) => {
                // The handle's own access: the entry's footprint plus the
                // exclusive claim on the entry itself.
                let mut param = entry.footprint.clone();
                param.writes.push(entry.entry_res);
                proof {
                    entry.footprint.writes@.lemma_push_to_set_commute(entry.entry_res);
                    assert(param.writes_set() == entry.footprint.writes_set().insert(
                        entry.entry_res,
                    ));
                    lemma_augmented_write_compatibility(
                        *old(caller),
                        entry.footprint,
                        param,
                        entry.entry_res,
                    );
                }
                if caller.is_compatible(&param) {
                    caller.extend(&param);
                    proof {
                        assert(caller.writes_set() =~= old(caller).writes_set().union(
                            entry.footprint.writes_set(),
                        ).insert(entry.entry_res));
                    }
                    Ok(kind)
                } else {
                    Err(CallbackError::Conflict { kind })
                }
            },
        }
    }

    /// Per-activation construction from the validated state: fetch the
    /// entry again and hand out the handle.  An entry that has vanished
    /// since validation is not a panic but an absent parameter, surfaced
    /// to the scheduler's validation channel as `None`.
    pub fn get_param(state: u64, registry: &Registry) -> (r: Option<Callback>)
        ensures
            r is Some <==> registry.spec_contains(state),
            r matches Some(cb) ==> cb.spec_kind() == state,
    {
        if registry.is_registered(state) {
            Some(Callback { kind: state })
        } else {
            None
        }
    }

    /// Synchronously invokes the registered handler on the shared context:
    /// the callee sees the current state, its resource writes are
    /// immediately visible afterwards, and any commands it queues stay
    /// deferred, tagged with this handle's request kind.  Returns the
    /// handler's typed response.
    pub fn request(&mut self, registry: &Registry, ctx: &mut ExecContext, req: u64) -> (resp: u64)
        requires
            registry.inv(),
            registry.spec_contains(old(self).spec_kind()),
            task_bounded(
                registry.spec_system(old(self).spec_kind()),
                old(ctx)@.resources.len(),
            ),
        ensures
            *final(self) == *old(self),
            final(ctx)@ == spec_run(
                registry.spec_system(old(self).spec_kind()),
                old(ctx)@,
                req,
                old(self).spec_kind(),
            ).ctx,
            resp == spec_run(
                registry.spec_system(old(self).spec_kind()),
                old(ctx)@,
                req,
                old(self).spec_kind(),
            ).out,
    {
        proof {
            registry.lemma_entry_wf(self.kind);
        }
        match registry.lookup(self.kind) {
            Some(entry) => entry.system.run(ctx, Req::wrap(req), self.kind),
            None => {
                proof {
                    assert(false);
                }
                0
            },
        }
    }

    /// The scheduler's synchronization point for this handle: applies, in
    /// queue order, exactly the deferred commands the handler queued under
    /// this handle's request kind.  Commands other callees queued stay
    /// queued; only here do this handler's structural mutations become
    /// visible.
    pub fn apply(&self, ctx: &mut ExecContext)
        ensures
            final(ctx)@.resources == spec_apply_from(
                old(ctx)@.resources,
                old(ctx)@.entities,
                old(ctx)@.pending,
                self.spec_kind(),
            ).resources,
            final(ctx)@.entities == spec_apply_from(
                old(ctx)@.resources,
                old(ctx)@.entities,
                old(ctx)@.pending,
                self.spec_kind(),
            ).entities,
            final(ctx)@.pending == spec_apply_from(
                old(ctx)@.resources,
                old(ctx)@.entities,
                old(ctx)@.pending,
                self.spec_kind(),
            ).remaining,
    {
        ctx.apply_from(self.kind);
    }
}

/// No two callback handles for one request kind can be live concurrently:
/// two callers that each constructed a handle for `kind` both hold the
/// exclusive write claim on its entry, so their widened footprints are
/// mutually incompatible and the scheduler must serialize them.
pub proof fn lemma_same_kind_callers_conflict(
    registry: Registry,
    a: Footprint,
    b: Footprint,
    kind: u64,
)
    requires
        a.writes_set().contains(registry.spec_entry_res(kind)),
        b.writes_set().contains(registry.spec_entry_res(kind)),
    ensures
        !a.spec_compatible(b),
        !b.spec_compatible(a),
{
    lemma_write_write_conflict(a, b, registry.spec_entry_res(kind));
    lemma_write_write_conflict(b, a, registry.spec_entry_res(kind));
}

/// Why the merge at construction is enough for the scheduler: once the
/// entry's write claims are folded into the caller's footprint, the
/// callee's effects are accounted for transitively — any run of the
/// registered handler leaves every resource outside the caller's widened
/// write set unchanged.
pub proof fn lemma_widened_footprint_covers_callee(
    registry: Registry,
    caller: Footprint,
    kind: u64,
    c: CtxView,
    req: u64,
    source: u64,
)
    requires
        registry.inv(),
        registry.spec_contains(kind),
        registry.spec_footprint(kind).writes_set().subset_of(caller.writes_set()),
    ensures
        forall|i: int|
            0 <= i < c.resources.len() && !caller.writes_set().contains(i as u64)
                ==> spec_run(registry.spec_system(kind), c, req, source).ctx.resources[i]
                == c.resources[i],
{
    registry.lemma_entry_wf(kind);
    lemma_run_frame(registry.spec_system(kind), c, req, source);
    assert forall|i: int|
        0 <= i < c.resources.len() && !caller.writes_set().contains(i as u64) implies spec_run(
        registry.spec_system(kind),
        c,
        req,
        source,
    ).ctx.resources[i] == c.resources[i] by {
        assert(!task_writes(registry.spec_system(kind)).contains(i as u64));
    }
}

/// The tolerant variant of `Callback`: an absent registration is not an
/// error but an empty handle, and the caller's footprint is then left
/// exactly as declared.
pub struct OptionCallback(pub Option<Callback>);

impl OptionCallback {
    /// Like `Callback::init_state`, except that an absent entry yields the
    /// empty state instead of failing; compatibility check and merge are
    /// then skipped entirely.  A present entry the caller cannot take is
    /// still a configuration error.
    pub fn init_state(registry: &Registry, caller: &mut Footprint, kind: u64) -> (r: Result<
        Option<u64>,
        CallbackError,
    >)
        requires
            registry.inv(),
        ensures
            !registry.spec_contains(kind) ==> r is Ok && r->Ok_0 is None
                && *final(caller) == *old(caller),
            registry.spec_contains(kind) && !spec_can_construct(*registry, *old(caller), kind)
                ==> r is Err && r->Err_0 == (CallbackError::Conflict { kind })
                && *final(caller) == *old(caller),
            registry.spec_contains(kind) && spec_can_construct(*registry, *old(caller), kind)
                ==> r is Ok && r->Ok_0 == Some(kind)
                && final(caller).reads_set() == old(caller).reads_set().union(
                registry.spec_footprint(kind).reads_set(),
            )
                && final(caller).writes_set() == old(caller).writes_set().union(
                registry.spec_footprint(kind).writes_set(),
            ).insert(registry.spec_entry_res(kind)),
    {
        if !registry.is_registered(kind) {
            return Ok(None);
        }
        match Callback::init_state(registry, caller, kind) {
            Ok(state) => Ok(Some(state)),
            Err(e) => Err(e),
        }
    }

    /// Per-activation construction: an empty state yields the empty
    /// handle, and so does an entry that has vanished since validation.
    pub fn get_param(state: &Option<u64>, registry: &Registry) -> (r: OptionCallback)
        ensures
            state is None ==> r.0 is None,
            state matches Some(k) ==> (r.0 is Some <==> registry.spec_contains(*k)),
            state matches Some(k) ==> (r.0 matches Some(cb) ==> cb.spec_kind() == *k),
    {
        match state {
            None => OptionCallback(None),
            Some(k) => OptionCallback(Callback::get_param(*k, registry)),
        }
    }

    /// Applies the handler's own deferred commands, conditioned on a
    /// handler having been present at construction time; an empty handle
    /// is a no-op.
    pub fn apply(&self, ctx: &mut ExecContext)
        ensures
            self.0 matches Some(cb) ==> final(ctx)@.resources == spec_apply_from(
                old(ctx)@.resources,
                old(ctx)@.entities,
                old(ctx)@.pending,
                cb.spec_kind(),
            ).resources && final(ctx)@.entities == spec_apply_from(
                old(ctx)@.resources,
                old(ctx)@.entities,
                old(ctx)@.pending,
                cb.spec_kind(),
            ).entities && final(ctx)@.pending == spec_apply_from(
                old(ctx)@.resources,
                old(ctx)@.entities,
                old(ctx)@.pending,
                cb.spec_kind(),
            ).remaining,
            self.0 is None ==> final(ctx)@ == old(ctx)@,
    {
        match &self.0 {
            Some(cb) => cb.apply(ctx),
            None => (),
        }
    }
}

} // verus!
