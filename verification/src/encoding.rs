//! The structured outcome of one encoding: clauses and the next free variable.

use vstd::prelude::*;

verus! {

/// What an [`EncodingResult`] stands for: a conjunction of clauses, each a
/// sequence of DIMACS literals, and the smallest variable index that the
/// clauses leave unused.
pub struct EncodingModel {
    pub clauses: Seq<Seq<i32>>,
    pub next_free_var_id: i32,
}

/// The clauses that a vector of literal vectors stands for.
pub open spec fn clause_views(clauses: Seq<Vec<i32>>) -> Seq<Seq<i32>> {
    Seq::new(clauses.len(), |i: int| clauses[i]@)
}

/// The result of an encoding operation.
///
/// It holds the clauses that encode the constraint and the index of the next
/// free variable. It is immutable once built and keeps no tie to the engine
/// that produced it.
#[derive(Debug, PartialEq, Eq)]
pub struct EncodingResult {
    clauses: Vec<Vec<i32>>,
    next_free_var_id: i32,
}

impl View for EncodingResult {
    type V = EncodingModel;

    closed spec fn view(&self) -> EncodingModel {
        EncodingModel {
            clauses: clause_views(self.clauses@),
            next_free_var_id: self.next_free_var_id,
        }
    }
}

impl EncodingResult {
    /// Builds a result from its two parts.
    pub(crate) fn from_parts(clauses: Vec<Vec<i32>>, next_free_var_id: i32) -> (r: Self)
        ensures
            r@.clauses == clause_views(clauses@),
            r@.next_free_var_id == next_free_var_id,
    {
        EncodingResult { clauses, next_free_var_id }
    }

    /// Returns the clauses that encode the constraint, in the order in which
    /// the engine emitted them.
    #[must_use]
    pub fn clauses(&self) -> (r: &[Vec<i32>])
        ensures
            clause_views(r@) == self@.clauses,
    {
        self.clauses.as_slice()
    }

    /// Returns the next free variable id: the lowest index that a later
    /// encoding over the same variable space may use.
    #[must_use]
    pub fn next_free_var_id(&self) -> (r: i32)
        ensures
            r == self@.next_free_var_id,
    {
        self.next_free_var_id
    }
}

} // verus!
