//! Conflict-free validation for compiled boundaries.
//!
//! For any two distinct boundaries P and Q: `write(P) ∩ write(Q) = ∅`
//! and `write(P) ∩ read(Q) = ∅`. Runtime code uses this helper when it
//! compares concrete perspective or bidding-group boundaries.

use vstd::prelude::*;

use super::compile::{all_wf, pair_safe, pairwise_safe, CompiledPerspective};
use super::safety::{pair_overlap, pair_overlap_spec, pairs_before_safe, PairOverlap};
use super::error::ConflictViolation;
use super::name::PerspectiveName;
use crate::label::{Label, LabelMap};

verus! {

/// Whether `v` reports the first unsafe pair of `e` and its first
/// overlap.
pub open spec fn conflict_violation_spec(e: Seq<(PerspectiveName, CompiledPerspective)>, v: ConflictViolation) -> bool {
    exists|i: int, j: int|
        0 <= i < j < e.len() && pairs_before_safe(e, i, j) && #[trigger] conflict_at(e, i, j, v)
}

/// Whether `v` describes the first overlap of pair `(i, j)`.
pub open spec fn conflict_at(e: Seq<(PerspectiveName, CompiledPerspective)>, i: int, j: int, v: ConflictViolation) -> bool {
    match v {
        ConflictViolation::WriteWriteOverlap { left, right, files } => left@ == e[i].0@ && right@
            == e[j].0@ && pair_overlap_spec(e[i].1, e[j].1, PairOverlap::WriteWrite(files)),
        ConflictViolation::WriteReadOverlap { writer, reader, files } => (writer@ == e[i].0@ && reader@
            == e[j].0@ && pair_overlap_spec(e[i].1, e[j].1, PairOverlap::LeftWritesRightReads(files)))
            || (writer@ == e[j].0@ && reader@ == e[i].0@ && pair_overlap_spec(
            e[i].1,
            e[j].1,
            PairOverlap::RightWritesLeftReads(files),
        )),
    }
}

/// Validates the safety property across a set of compiled perspectives.
pub struct ConflictFreeValidator<'a> {
    perspectives: &'a LabelMap<PerspectiveName, CompiledPerspective>,
}

impl<'a> ConflictFreeValidator<'a> {
    /// Create a validator for the given compiled perspectives.
    pub fn new(perspectives: &'a LabelMap<PerspectiveName, CompiledPerspective>) -> (v: Self)
        ensures
            v.entries() == perspectives.spec_entries(),
    {
        ConflictFreeValidator { perspectives }
    }

    /// The perspectives being checked.
    pub closed spec fn entries(&self) -> Seq<(PerspectiveName, CompiledPerspective)> {
        self.perspectives.spec_entries()
    }

    /// Validate the safety property: `Ok` exactly when every pair is
    /// safe; otherwise the first violation, pairs taken in order.
    pub fn validate(&self) -> (r: Result<(), ConflictViolation>)
        requires
            all_wf(self.entries()),
        ensures
            r is Ok <==> pairwise_safe(self.entries()),
            r matches Err(v) ==> conflict_violation_spec(self.entries(), v),
    {
        let n = self.perspectives.len();
        let ghost e = self.entries();
        let mut i: usize = 0;
        while i < n
            invariant
                n == e.len(),
                e == self.entries(),
                all_wf(e),
                i <= n,
                pairs_before_safe(e, i as int, i as int + 1),
            decreases n - i,
        {
            let mut j: usize = i + 1;
            while j < n
                invariant
                    n == e.len(),
                    e == self.entries(),
                    all_wf(e),
                    i < n,
                    i + 1 <= j <= n,
                    pairs_before_safe(e, i as int, j as int),
                decreases n - j,
            {
                let p = self.perspectives.value_at(i);
                let q = self.perspectives.value_at(j);
                match self.check_pair(self.perspectives.key_at(i), p, self.perspectives.key_at(j), q) {
                    Ok(()) => {},
                    Err(v) => {
                        proof {
                            assert(conflict_at(e, i as int, j as int, v));
                        }
                        return Err(v);
                    },
                }
                j = j + 1;
            }
            proof {
                assert forall|a: int, b: int|
                    0 <= a < b < e.len() && (a < i + 1 || (a == i + 1 && b < i + 2)) implies pair_safe(
                    #[trigger] e[a].1,
                    #[trigger] e[b].1,
                ) by {
                    if a == i + 1 {
                        assert(b == i + 1 || b < i + 1);
                    }
                }
            }
            i = i + 1;
        }
        proof {
            assert forall|a: int, b: int| 0 <= a < b < e.len() implies pair_safe(
                #[trigger] e[a].1,
                #[trigger] e[b].1,
            ) by {}
        }
        Ok(())
    }

    /// Check the safety property between two distinct perspectives.
    fn check_pair(
        &self,
        name_p: &PerspectiveName,
        p: &CompiledPerspective,
        name_q: &PerspectiveName,
        q: &CompiledPerspective,
    ) -> (r: Result<(), ConflictViolation>)
        requires
            p.wf(),
            q.wf(),
        ensures
            r is Ok <==> pair_safe(*p, *q),
            r matches Err(ConflictViolation::WriteWriteOverlap { left, right, files }) ==> left@
                == name_p@ && right@ == name_q@ && pair_overlap_spec(*p, *q, PairOverlap::WriteWrite(files)),
            r matches Err(ConflictViolation::WriteReadOverlap { writer, reader, files }) ==> (writer@
                == name_p@ && reader@ == name_q@ && pair_overlap_spec(
                *p,
                *q,
                PairOverlap::LeftWritesRightReads(files),
            )) || (writer@ == name_q@ && reader@ == name_p@ && pair_overlap_spec(
                *p,
                *q,
                PairOverlap::RightWritesLeftReads(files),
            )),
    {
        match pair_overlap(p, q) {
            PairOverlap::Disjoint => Ok(()),
            PairOverlap::WriteWrite(files) => Err(
                ConflictViolation::WriteWriteOverlap { left: name_p.dup(), right: name_q.dup(), files },
            ),
            PairOverlap::LeftWritesRightReads(files) => Err(
                ConflictViolation::WriteReadOverlap { writer: name_p.dup(), reader: name_q.dup(), files },
            ),
            PairOverlap::RightWritesLeftReads(files) => Err(
                ConflictViolation::WriteReadOverlap { writer: name_q.dup(), reader: name_p.dup(), files },
            ),
        }
    }
}

} // verus!
