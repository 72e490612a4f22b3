//! Overlap between two compiled boundaries: the check that keeps live
//! bidding groups conflict-free.
//!
//! Two boundaries overlap when they write a common file, or one writes
//! a file the other reads. Worker creation and perspective validation
//! both stop at the first overlap found, checked in the order
//! write/write, left-write/right-read, left-read/right-write.

use vstd::prelude::*;

use super::error::RuntimeError;
use super::state::PerspectiveConflict;
use crate::label::Label;
use crate::path_set::{path_sorted, strings_view, PathSet};
use crate::perspective::compile::{disjoint, CompiledPerspective};
use crate::perspective::name::PerspectiveName;

verus! {

/// Direction of one boundary overlap.
#[derive(Debug, Clone, Copy, PartialEq, Eq, Structural)]
pub enum BoundaryOverlapRelation {
    /// Both boundaries write the same files.
    WriteWrite,
    /// The left boundary writes files the right one reads.
    LeftWriteRightRead,
    /// The left boundary reads files the right one writes.
    LeftReadRightWrite,
}

/// The relation text used by worker-creation errors.
pub open spec fn runtime_relation_text(r: BoundaryOverlapRelation) -> Seq<char> {
    match r {
        BoundaryOverlapRelation::WriteWrite => "write/write overlap"@,
        BoundaryOverlapRelation::LeftWriteRightRead => "candidate write overlaps active read"@,
        BoundaryOverlapRelation::LeftReadRightWrite => "candidate read overlaps active write"@,
    }
}

/// The relation text used by perspective validation output.
pub open spec fn validation_relation_text(r: BoundaryOverlapRelation) -> Seq<char> {
    match r {
        BoundaryOverlapRelation::WriteWrite => "write/write overlap"@,
        BoundaryOverlapRelation::LeftWriteRightRead => "write overlaps read"@,
        BoundaryOverlapRelation::LeftReadRightWrite => "read overlaps write"@,
    }
}

impl BoundaryOverlapRelation {
    /// Relation text used by worker-creation errors.
    pub fn runtime_relation(self) -> (s: &'static str)
        ensures
            s@ == runtime_relation_text(self),
    {
        match self {
            BoundaryOverlapRelation::WriteWrite => "write/write overlap",
            BoundaryOverlapRelation::LeftWriteRightRead => "candidate write overlaps active read",
            BoundaryOverlapRelation::LeftReadRightWrite => "candidate read overlaps active write",
        }
    }

    /// Relation text used by perspective validation output.
    pub fn validation_relation(self) -> (s: &'static str)
        ensures
            s@ == validation_relation_text(self),
    {
        match self {
            BoundaryOverlapRelation::WriteWrite => "write/write overlap",
            BoundaryOverlapRelation::LeftWriteRightRead => "write overlaps read",
            BoundaryOverlapRelation::LeftReadRightWrite => "read overlaps write",
        }
    }
}

/// Whether boundary (`lr`, `lw`) is clear of boundary (`rr`, `rw`): no
/// common written file, and neither writes what the other reads.
pub open spec fn clears(
    lr: Set<Seq<char>>,
    lw: Set<Seq<char>>,
    rr: Set<Seq<char>>,
    rw: Set<Seq<char>>,
) -> bool {
    &&& disjoint(lw, rw)
    &&& disjoint(lw, rr)
    &&& disjoint(lr, rw)
}

/// The first overlap between two boundaries, with its files.
pub open spec fn overlap_spec(
    lr: Set<Seq<char>>,
    lw: Set<Seq<char>>,
    rr: Set<Seq<char>>,
    rw: Set<Seq<char>>,
) -> Option<(BoundaryOverlapRelation, Set<Seq<char>>)> {
    if !disjoint(lw, rw) {
        Some((BoundaryOverlapRelation::WriteWrite, lw.intersect(rw)))
    } else if !disjoint(lw, rr) {
        Some((BoundaryOverlapRelation::LeftWriteRightRead, lw.intersect(rr)))
    } else if !disjoint(lr, rw) {
        Some((BoundaryOverlapRelation::LeftReadRightWrite, lr.intersect(rw)))
    } else {
        None
    }
}

/// Clearance is symmetric.
pub proof fn lemma_clears_symmetric(
    lr: Set<Seq<char>>,
    lw: Set<Seq<char>>,
    rr: Set<Seq<char>>,
    rw: Set<Seq<char>>,
)
    ensures
        clears(lr, lw, rr, rw) == clears(rr, rw, lr, lw),
{
    assert(lw.intersect(rw) =~= rw.intersect(lw));
    assert(lw.intersect(rr) =~= rr.intersect(lw));
    assert(lr.intersect(rw) =~= rw.intersect(lr));
}

/// One concrete overlap between two boundaries.
#[derive(Debug, Clone, PartialEq, Eq)]
pub struct BoundaryOverlap {
    /// The overlapping files.
    pub files: Vec<String>,
    /// Which sets overlap.
    pub relation: BoundaryOverlapRelation,
}

impl BoundaryOverlap {
    /// Detect the first overlap between two compiled boundaries.
    pub fn detect(left: &CompiledPerspective, right: &CompiledPerspective) -> (r: Option<Self>)
        requires
            left.wf(),
            right.wf(),
        ensures
            match (r, overlap_spec(
                left.read_set(),
                left.write_set(),
                right.read_set(),
                right.write_set(),
            )) {
                (Some(o), Some((rel, files))) => o.relation == rel && strings_view(o.files@).to_set()
                    == files && strings_view(o.files@).no_duplicates() && path_sorted(
                    strings_view(o.files@),
                ),
                (None, None) => true,
                _ => false,
            },
    {
        let ww = left.write().intersection(right.write());
        match Self::from_sets(BoundaryOverlapRelation::WriteWrite, &ww) {
            Some(o) => return Some(o),
            None => {},
        }
        let wr = left.write().intersection(right.read());
        match Self::from_sets(BoundaryOverlapRelation::LeftWriteRightRead, &wr) {
            Some(o) => return Some(o),
            None => {},
        }
        let rw = left.read().intersection(right.write());
        Self::from_sets(BoundaryOverlapRelation::LeftReadRightWrite, &rw)
    }

    /// The overlap of `relation` over `files`, unless `files` is empty.
    pub fn from_sets(relation: BoundaryOverlapRelation, files: &PathSet) -> (r: Option<Self>)
        requires
            files.wf(),
        ensures
            match r {
                Some(o) => files.set() != Set::<Seq<char>>::empty() && o.relation == relation
                    && strings_view(o.files@) == files.items(),
                None => files.set() == Set::<Seq<char>>::empty(),
            },
    {
        if files.is_empty() {
            return None;
        }
        Some(BoundaryOverlap { relation, files: files.to_vec() })
    }
}

/// The worker-creation error for a candidate boundary that overlaps an
/// active group's boundary, if it does.
pub fn boundary_conflict(
    candidate_name: &PerspectiveName,
    candidate: &CompiledPerspective,
    active_name: &PerspectiveName,
    active: &CompiledPerspective,
) -> (r: Option<RuntimeError>)
    requires
        candidate.wf(),
        active.wf(),
    ensures
        match (r, overlap_spec(
            candidate.read_set(),
            candidate.write_set(),
            active.read_set(),
            active.write_set(),
        )) {
            (
                Some(RuntimeError::ConflictWithActiveBiddingGroup {
                    perspective,
                    blocking_perspective,
                    relation,
                    files,
                }),
                Some((rel, fs)),
            ) => perspective@ == candidate_name@ && blocking_perspective@ == active_name@
                && relation@ == runtime_relation_text(rel) && strings_view(files@).to_set() == fs
                && strings_view(files@).no_duplicates() && path_sorted(strings_view(files@)),
            (None, None) => true,
            _ => false,
        },
{
    match BoundaryOverlap::detect(candidate, active) {
        Some(o) => Some(
            RuntimeError::ConflictWithActiveBiddingGroup {
                perspective: candidate_name.dup(),
                blocking_perspective: active_name.dup(),
                relation: o.relation.runtime_relation(),
                files: o.files,
            },
        ),
        None => None,
    }
}

/// The validation record for two overlapping boundaries, if they
/// overlap.
pub fn boundary_conflict_info(
    a_name: &PerspectiveName,
    a: &CompiledPerspective,
    b_name: &PerspectiveName,
    b: &CompiledPerspective,
) -> (r: Option<PerspectiveConflict>)
    requires
        a.wf(),
        b.wf(),
    ensures
        match (r, overlap_spec(a.read_set(), a.write_set(), b.read_set(), b.write_set())) {
            (Some(c), Some((rel, fs))) => c.perspective@ == a_name@ && c.blocking_perspective@
                == b_name@ && c.relation@ == validation_relation_text(rel) && strings_view(
                c.files@,
            ).to_set() == fs && strings_view(c.files@).no_duplicates() && path_sorted(
                strings_view(c.files@),
            ),
            (None, None) => true,
            _ => false,
        },
{
    match BoundaryOverlap::detect(a, b) {
        Some(o) => Some(
            PerspectiveConflict {
                perspective: a_name.dup(),
                blocking_perspective: b_name.dup(),
                relation: o.relation.validation_relation(),
                files: o.files,
            },
        ),
        None => None,
    }
}

} // verus!
