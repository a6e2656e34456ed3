//! The service registry: a process-wide table, keyed by request kind,
//! holding exactly one erased handler task per kind together with its
//! precomputed access footprint.
//!
//! An entry is created once, at registration, and never replaced: a second
//! registration for the same request kind is a configuration error, reported
//! as such.  There is no removal; entries live for the registry's lifetime.

use vstd::prelude::*;
use crate::footprint::Footprint;
use crate::system::{CallbackSystem, IntoCallbackSystem, Task, task_reads, task_wf, task_writes};

verus! {

/// The stored pairing of a handler task and its precomputed access
/// footprint, erased to one uniform shape whatever the request kind.
pub struct ErasedCallbackSystem {
    /// The request kind this entry answers.
    pub kind: u64,
    /// The handler task; the entry owns it exclusively.
    pub system: Task,
    /// The handler's full footprint, derived by the composer at
    /// registration time and immutable afterwards.
    pub footprint: Footprint,
    /// The resource identity standing for this entry itself.  A caller's
    /// handle claims it exclusively, so no two handles on the same entry
    /// can ever be live concurrently.
    pub entry_res: u64,
}

/// A registration-time configuration error.
#[derive(Clone, Copy, Debug, PartialEq, Eq)]
pub enum RegisterError {
    /// An entry for this request kind already exists: duplicate
    /// registration is a programming error, not a runtime condition.  The
    /// response kind is fixed per request kind, so naming the kind names
    /// the offending request/response pair.
    Duplicate { kind: u64 },
}

/// The process-wide service registry.
pub struct Registry {
    entries: Vec<ErasedCallbackSystem>,
}

impl Registry {
    /// Whether a handler is registered for `kind`.
    pub closed spec fn spec_contains(self, kind: u64) -> bool {
        exists|i: int| 0 <= i < self.entries@.len() && self.entries@[i].kind == kind
    }

    /// The index of the entry for `kind`, when one exists.
    closed spec fn entry_index(self, kind: u64) -> int {
        choose|i: int| 0 <= i < self.entries@.len() && self.entries@[i].kind == kind
    }

    /// The handler task registered for `kind`.
    pub closed spec fn spec_system(self, kind: u64) -> Task {
        self.entries@[self.entry_index(kind)].system
    }

    /// The stored footprint of the handler registered for `kind`.
    pub closed spec fn spec_footprint(self, kind: u64) -> Footprint {
        self.entries@[self.entry_index(kind)].footprint
    }

    /// The resource identity standing for the entry registered for `kind`.
    pub closed spec fn spec_entry_res(self, kind: u64) -> u64 {
        self.entries@[self.entry_index(kind)].entry_res
    }

    /// Internal consistency: at most one entry per request kind, every
    /// stored handler well formed, every stored footprint exactly the one
    /// the composer derives from its handler, and every entry holding its
    /// own identity, allocated from the top of the identity space, away
    /// from the low identities plain resources use.
    pub closed spec fn inv(self) -> bool {
        &&& forall|i: int, j: int|
            0 <= i < j < self.entries@.len() ==> self.entries@[i].kind != self.entries@[j].kind
        &&& forall|i: int|
            0 <= i < self.entries@.len() ==> task_wf(#[trigger] self.entries@[i].system)
        &&& forall|i: int|
            0 <= i < self.entries@.len() ==> (#[trigger] self.entries@[i].footprint).reads_set()
                == task_reads(self.entries@[i].system) && self.entries@[i].footprint.writes_set()
                == task_writes(self.entries@[i].system)
        &&& forall|i: int|
            0 <= i < self.entries@.len() ==> (#[trigger] self.entries@[i].entry_res) == u64::MAX
                - i
    }

    /// An empty registry: no handler registered for any kind.
    pub fn new() -> (r: Registry)
        ensures
            r.inv(),
            forall|k: u64| !r.spec_contains(k),
    {
        Registry { entries: Vec::new() }
    }

    /// The index of the entry for `kind`, if any.
    fn find_index(&self, kind: u64) -> (r: Option<usize>)
        ensures
            match r {
                Some(i) => i < self.entries@.len() && self.entries@[i as int].kind == kind,
                None => !self.spec_contains(kind),
            },
    {
        let mut i: usize = 0;
        while i < self.entries.len()
            invariant
                i <= self.entries@.len(),
                forall|j: int| 0 <= j < i ==> self.entries@[j].kind != kind,
            decreases self.entries@.len() - i,
        {
            if self.entries[i].kind == kind {
                return Some(i);
            }
            i += 1;
        }
        None
    }

    /// Registers `system` as the unique handler for `kind`: derives its
    /// full footprint once, via the composer, and inserts the entry.
    ///
    /// Fails, with the offending kind named, iff an entry for `kind`
    /// already exists; the registry is then left untouched.
    pub fn register<S: IntoCallbackSystem<System = Task>>(
        &mut self,
        kind: u64,
        system: S,
    ) -> (r: Result<(), RegisterError>)
        requires
            old(self).inv(),
            task_wf(S::spec_into(system)),
        ensures
            final(self).inv(),
            r is Ok <==> !old(self).spec_contains(kind),
            r is Ok ==> forall|k: u64|
                final(self).spec_contains(k) <==> (old(self).spec_contains(k) || k == kind),
            r is Ok ==> final(self).spec_system(kind) == S::spec_into(system),
            r is Ok ==> final(self).spec_footprint(kind).reads_set() == task_reads(
                S::spec_into(system),
            ),
            r is Ok ==> final(self).spec_footprint(kind).writes_set() == task_writes(
                S::spec_into(system),
            ),
            r is Ok ==> forall|k: u64|
                k != kind && old(self).spec_contains(k) ==> final(self).spec_contains(k)
                    && final(self).spec_system(k) == old(self).spec_system(k)
                    && final(self).spec_footprint(k) == old(self).spec_footprint(k)
                    && final(self).spec_entry_res(k) == old(self).spec_entry_res(k),
            r is Err ==> *final(self) == *old(self),
            r is Err ==> r->Err_0 == (RegisterError::Duplicate { kind }),
    {
        let task = S::into_system(system);
        match self.find_index(kind) {
            Some(_) => Err(RegisterError::Duplicate { kind }),
            None => {
                let footprint = task.footprint();
                let entry_res = u64::MAX - (self.entries.len() as u64);
                let ghost old_len = self.entries@.len() as int;
                self.entries.push(ErasedCallbackSystem { kind, system: task, footprint, entry_res });
                proof {
                    let entries = self.entries@;
                    assert(entries[old_len].kind == kind);
                    assert(self.spec_contains(kind));
                    assert(self.entry_index(kind) == old_len) by {
                        let i = self.entry_index(kind);
                        if i != old_len {
                            assert(old(self).entries@[i].kind == kind);
                            assert(old(self).spec_contains(kind));
                        }
                    }
                    assert forall|k: u64|
                        self.spec_contains(k) <==> (old(self).spec_contains(k)
                            || k == kind) by {
                        if self.spec_contains(k) {
                            let i = self.entry_index(k);
                            if i != old_len {
                                assert(old(self).entries@[i].kind == k);
                            }
                        }
                        if old(self).spec_contains(k) {
                            let i = old(self).entry_index(k);
                            assert(entries[i].kind == k);
                        }
                    }
                    assert forall|k: u64| k != kind && old(self).spec_contains(k) implies self
                        .spec_contains(k) && self.spec_system(k) == old(self).spec_system(k)
                        && self.spec_footprint(k) == old(self).spec_footprint(k)
                        && self.spec_entry_res(k) == old(self).spec_entry_res(k) by {
                        let i = old(self).entry_index(k);
                        assert(entries[i].kind == k);
                        assert(self.spec_contains(k));
                        let j = self.entry_index(k);
                        assert(entries[j].kind == k);
                        if j != i {
                            if j == old_len {
                                assert(entries[j].kind == kind);
                            } else {
                                assert(old(self).entries@[j].kind == k);
                                assert(i < j || j < i);
                            }
                        }
                    }
                }
                Ok(())
            },
        }
    }

    /// Whether a handler is registered for `kind`.
    pub fn is_registered(&self, kind: u64) -> (r: bool)
        ensures
            r == self.spec_contains(kind),
    {
        match self.find_index(kind) {
            Some(i) => {
                proof {
                    assert(self.entries@[i as int].kind == kind);
                }
                true
            },
            None => false,
        }
    }

    /// Non-mutating lookup of the entry for `kind`, used while a callback
    /// handle is being constructed.
    pub fn lookup(&self, kind: u64) -> (r: Option<&ErasedCallbackSystem>)
        requires
            self.inv(),
        ensures
            match r {
                Some(e) => self.spec_contains(kind) && e.kind == kind && e.system
                    == self.spec_system(kind) && e.footprint == self.spec_footprint(kind)
                    && e.entry_res == self.spec_entry_res(kind),
                None => !self.spec_contains(kind),
            },
    {
        match self.find_index(kind) {
            Some(i) => {
                let e = &self.entries[i];
                proof {
                    assert(self.spec_contains(kind));
                    let j = self.entry_index(kind);
                    assert(self.entries@[j].kind == kind);
                    if j != i as int {
                        assert(self.entries@[i as int].kind == self.entries@[j].kind);
                    }
                }
                Some(e)
            },
            None => None,
        }
    }

    /// What the invariant gives for any registered entry: its handler is
    /// well formed and its stored footprint is exactly the composer's.
    /// Different request kinds hold different entry identities, so
    /// handles on different kinds never collide on their entry claims.
    pub proof fn lemma_entry_res_injective(self, k1: u64, k2: u64)
        requires
            self.inv(),
            self.spec_contains(k1),
            self.spec_contains(k2),
            k1 != k2,
        ensures
            self.spec_entry_res(k1) != self.spec_entry_res(k2),
    {
        let i = self.entry_index(k1);
        let j = self.entry_index(k2);
        assert(self.entries@[i].kind == k1);
        assert(self.entries@[j].kind == k2);
        assert(i != j);
    }

    pub proof fn lemma_entry_wf(self, kind: u64)
        requires
            self.inv(),
            self.spec_contains(kind),
        ensures
            task_wf(self.spec_system(kind)),
            self.spec_footprint(kind).reads_set() == task_reads(self.spec_system(kind)),
            self.spec_footprint(kind).writes_set() == task_writes(self.spec_system(kind)),
    {
        let i = self.entry_index(kind);
        assert(self.entries@[i].kind == kind);
    }
}

} // verus!
