//! Access footprints: the read/write claims a task makes over shared
//! resources, with a decidable compatibility relation and a check-then-merge
//! protocol.
//!
//! Every shared resource is represented by a stable identity (a `u64`).  A
//! footprint is a set of claims over such identities, each claim either a
//! read or a write.  Two footprints are compatible iff no write claim in one
//! overlaps any claim (read or write) in the other.  Merging is only allowed
//! after a compatibility check: `extend` requires `is_compatible`.

use vstd::prelude::*;

verus! {

/// The read/write claims a task makes over shared resources.
///
/// The same identity may occur more than once in a claim list; the meaning
/// of a footprint is the *set* of identities claimed, given by `reads_set`
/// and `writes_set`.
pub struct Footprint {
    /// Identities of the resources the owning task reads.
    pub reads: Vec<u64>,
    /// Identities of the resources the owning task writes (exclusive
    /// access).
    pub writes: Vec<u64>,
}

impl Footprint {
    /// The set of resources claimed for reading.
    pub open spec fn reads_set(self) -> Set<u64> {
        self.reads@.to_set()
    }

    /// The set of resources claimed for writing.
    pub open spec fn writes_set(self) -> Set<u64> {
        self.writes@.to_set()
    }

    /// Every resource this footprint claims, for reading or writing.
    pub open spec fn claims(self) -> Set<u64> {
        self.reads_set().union(self.writes_set())
    }

    /// Two footprints conflict on resource `r` when a write claim on `r` in
    /// one overlaps any claim on `r` in the other.
    pub open spec fn conflicts_on(self, other: Footprint, r: u64) -> bool {
        ||| self.writes_set().contains(r) && other.claims().contains(r)
        ||| other.writes_set().contains(r) && self.claims().contains(r)
    }

    /// Compatibility: merging is safe because no resource is a write/write
    /// or write/read overlap between the two footprints.
    pub open spec fn spec_compatible(self, other: Footprint) -> bool {
        forall|r: u64| !(#[trigger] self.conflicts_on(other, r))
    }

    /// An empty footprint: no claims at all.
    pub fn new() -> (r: Footprint)
        ensures
            r.reads_set() == Set::<u64>::empty(),
            r.writes_set() == Set::<u64>::empty(),
    {
        let r = Footprint { reads: Vec::new(), writes: Vec::new() };
        proof {
            assert(r.reads_set() =~= Set::<u64>::empty());
            assert(r.writes_set() =~= Set::<u64>::empty());
        }
        r
    }

    /// Whether merging `other` into `self` is safe.  Pure; no side effects.
    pub fn is_compatible(&self, other: &Footprint) -> (r: bool)
        ensures
            r == self.spec_compatible(*other),
    {
        if !no_overlap(&self.writes, &other.reads) {
            proof {
                let j = choose|j: int|
                    0 <= j < self.writes@.len() && other.reads@.contains(self.writes@[j]);
                let x = self.writes@[j];
                assert(self.writes_set().contains(x));
                assert(self.conflicts_on(*other, x));
            }
            return false;
        }
        if !no_overlap(&self.writes, &other.writes) {
            proof {
                let j = choose|j: int|
                    0 <= j < self.writes@.len() && other.writes@.contains(self.writes@[j]);
                let x = self.writes@[j];
                assert(self.writes_set().contains(x));
                assert(self.conflicts_on(*other, x));
            }
            return false;
        }
        if !no_overlap(&other.writes, &self.reads) {
            proof {
                let j = choose|j: int|
                    0 <= j < other.writes@.len() && self.reads@.contains(other.writes@[j]);
                let x = other.writes@[j];
                assert(other.writes_set().contains(x));
                assert(self.conflicts_on(*other, x));
            }
            return false;
        }
        proof {
            assert forall|r: u64| !(#[trigger] self.conflicts_on(*other, r)) by {
                if self.writes_set().contains(r) {
                    let j = choose|j: int|
                        0 <= j < self.writes@.len() && self.writes@[j] == r;
                    assert(!other.reads@.contains(self.writes@[j]));
                    assert(!other.writes@.contains(self.writes@[j]));
                }
                if other.writes_set().contains(r) {
                    let j = choose|j: int|
                        0 <= j < other.writes@.len() && other.writes@[j] == r;
                    assert(!self.reads@.contains(other.writes@[j]));
                }
            }
        }
        true
    }

    /// The union of two footprints as a fresh footprint, used by the
    /// footprint composer.  Unlike `extend`, composition does not demand
    /// compatibility: the parts of a sequential pipe run one after the
    /// other and may legitimately claim the same resource.
    pub fn merged(&self, other: &Footprint) -> (r: Footprint)
        ensures
            r.reads_set() == self.reads_set().union(other.reads_set()),
            r.writes_set() == self.writes_set().union(other.writes_set()),
    {
        let mut r = self.clone();
        push_all(&mut r.reads, &other.reads);
        push_all(&mut r.writes, &other.writes);
        proof {
            lemma_concat_to_set(self.reads@, other.reads@);
            lemma_concat_to_set(self.writes@, other.writes@);
        }
        r
    }

    /// Merges `other`'s claims into `self`.
    ///
    /// Precondition: the two footprints must already have been checked for
    /// compatibility.  Merging incompatible footprints is a logic error, so
    /// callers must run `is_compatible` first.
    pub fn extend(&mut self, other: &Footprint)
        requires
            old(self).spec_compatible(*other),
        ensures
            final(self).reads_set() == old(self).reads_set().union(other.reads_set()),
            final(self).writes_set() == old(self).writes_set().union(other.writes_set()),
    {
        push_all(&mut self.reads, &other.reads);
        push_all(&mut self.writes, &other.writes);
        proof {
            lemma_concat_to_set(old(self).reads@, other.reads@);
            lemma_concat_to_set(old(self).writes@, other.writes@);
        }
    }
}

impl Clone for Footprint {
    /// A clone carries exactly the same claims.
    fn clone(&self) -> (r: Self)
        ensures
            r.reads@ == self.reads@,
            r.writes@ == self.writes@,
    {
        let mut reads: Vec<u64> = Vec::new();
        let mut writes: Vec<u64> = Vec::new();
        push_all(&mut reads, &self.reads);
        push_all(&mut writes, &self.writes);
        Footprint { reads, writes }
    }
}

/// True iff no element of `xs` occurs in `ys`.
fn no_overlap(xs: &Vec<u64>, ys: &Vec<u64>) -> (r: bool)
    ensures
        r == (forall|j: int| 0 <= j < xs@.len() ==> !ys@.contains(#[trigger] xs@[j])),
{
    let mut i: usize = 0;
    while i < xs.len()
        invariant
            i <= xs@.len(),
            forall|j: int| 0 <= j < i ==> !ys@.contains(#[trigger] xs@[j]),
        decreases xs@.len() - i,
    {
        if vec_contains(ys, xs[i]) {
            return false;
        }
        i += 1;
    }
    true
}

/// True iff `x` occurs in `v`.
fn vec_contains(v: &Vec<u64>, x: u64) -> (r: bool)
    ensures
        r == v@.contains(x),
{
    let mut i: usize = 0;
    while i < v.len()
        invariant
            i <= v@.len(),
            forall|j: int| 0 <= j < i ==> v@[j] != x,
        decreases v@.len() - i,
    {
        if v[i] == x {
            assert(v@.contains(x)) by {
                assert(v@[i as int] == x);
            }
            return true;
        }
        i += 1;
    }
    false
}

/// Appends every element of `src` to `dst`.
fn push_all(dst: &mut Vec<u64>, src: &Vec<u64>)
    ensures
        final(dst)@ == old(dst)@ + src@,
{
    let mut i: usize = 0;
    while i < src.len()
        invariant
            i <= src@.len(),
            dst@ == old(dst)@ + src@.subrange(0, i as int),
        decreases src@.len() - i,
    {
        dst.push(src[i]);
        proof {
            assert(dst@ =~= old(dst)@ + src@.subrange(0, i + 1));
        }
        i += 1;
    }
    proof {
        assert(dst@ =~= old(dst)@ + src@) by {
            assert(src@.subrange(0, src@.len() as int) =~= src@);
        }
    }
}

/// The claim set of a concatenation is the union of the claim sets.
pub proof fn lemma_concat_to_set(a: Seq<u64>, b: Seq<u64>)
    ensures
        (a + b).to_set() == a.to_set().union(b.to_set()),
{
    assert forall|x: u64| (a + b).to_set().contains(x) <==> a.to_set().union(b.to_set()).contains(
        x,
    ) by {
        if (a + b).contains(x) {
            let i = choose|i: int| 0 <= i < (a + b).len() && (a + b)[i] == x;
            if i < a.len() {
                assert(a[i] == x);
            } else {
                assert(b[i - a.len()] == x);
            }
        }
        if a.contains(x) {
            let i = choose|i: int| 0 <= i < a.len() && a[i] == x;
            assert((a + b)[i] == x);
        }
        if b.contains(x) {
            let i = choose|i: int| 0 <= i < b.len() && b[i] == x;
            assert((a + b)[a.len() + i] == x);
        }
    }
    assert((a + b).to_set() =~= a.to_set().union(b.to_set()));
}

/// Adding one extra write claim `e` to a footprint refines compatibility in
/// exactly one way: a caller is compatible with the augmented footprint iff
/// it is compatible with the base one and holds no claim at all on `e`.
pub proof fn lemma_augmented_write_compatibility(
    caller: Footprint,
    base: Footprint,
    aug: Footprint,
    e: u64,
)
    requires
        aug.reads_set() == base.reads_set(),
        aug.writes_set() == base.writes_set().insert(e),
    ensures
        caller.spec_compatible(aug) == (caller.spec_compatible(base) && !caller.claims().contains(
            e,
        )),
{
    assert(aug.claims() =~= base.claims().insert(e));
    if caller.spec_compatible(aug) {
        assert forall|r: u64| !(#[trigger] caller.conflicts_on(base, r)) by {
            assert(!caller.conflicts_on(aug, r));
        }
        assert(!caller.claims().contains(e)) by {
            if caller.claims().contains(e) {
                assert(caller.conflicts_on(aug, e));
            }
        }
    }
    if caller.spec_compatible(base) && !caller.claims().contains(e) {
        assert forall|r: u64| !(#[trigger] caller.conflicts_on(aug, r)) by {
            assert(!caller.conflicts_on(base, r));
        }
    }
}

/// Footprint compatibility is symmetric: whether two footprints may merge
/// does not depend on which of the two asks.
pub proof fn lemma_compatible_symmetric(a: Footprint, b: Footprint)
    ensures
        a.spec_compatible(b) == b.spec_compatible(a),
{
    assert forall|r: u64| #[trigger] a.conflicts_on(b, r) == b.conflicts_on(a, r) by {};
    if a.spec_compatible(b) {
        assert forall|r: u64| !(#[trigger] b.conflicts_on(a, r)) by {
            assert(!a.conflicts_on(b, r));
        }
    }
    if b.spec_compatible(a) {
        assert forall|r: u64| !(#[trigger] a.conflicts_on(b, r)) by {
            assert(!b.conflicts_on(a, r));
        }
    }
}

/// A write/write overlap on any single resource makes two footprints
/// incompatible.
pub proof fn lemma_write_write_conflict(a: Footprint, b: Footprint, r: u64)
    requires
        a.writes_set().contains(r),
        b.writes_set().contains(r),
    ensures
        !a.spec_compatible(b),
{
    assert(a.conflicts_on(b, r));
}

/// A write claim against a mere read claim on the same resource is already a
/// conflict.
pub proof fn lemma_write_read_conflict(a: Footprint, b: Footprint, r: u64)
    requires
        a.writes_set().contains(r),
        b.reads_set().contains(r),
    ensures
        !a.spec_compatible(b),
{
    assert(a.conflicts_on(b, r));
}

/// Footprints that only read may always merge: if neither side claims any
/// write, they are compatible.
pub proof fn lemma_read_read_compatible(a: Footprint, b: Footprint)
    requires
        a.writes_set() == Set::<u64>::empty(),
        b.writes_set() == Set::<u64>::empty(),
    ensures
        a.spec_compatible(b),
{
    assert forall|r: u64| !(#[trigger] a.conflicts_on(b, r)) by {
        assert(!a.writes_set().contains(r));
        assert(!b.writes_set().contains(r));
    }
}

} // verus!
