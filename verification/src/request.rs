//! Validation and marshalling of a constraint into a call of the engine.
//!
//! Each of the five operations yields the [`EngineCall`] to perform. A
//! weighted operation takes one weight per literal: to hand it weights and
//! literals that differ in number is an error of the caller, which the
//! operations rule out rather than report. An operation that fails yields no
//! call, so the engine is never entered for it.

use vstd::prelude::*;

verus! {

/// Why a constraint cannot be handed to the engine.
#[derive(Debug, Clone, Copy, PartialEq, Eq, Structural)]
pub enum EncodeError {
    /// There are more terms than the engine's signed 32-bit count can hold.
    TooManyLiterals { len: usize },
}

/// The relation that the engine is asked to encode, with its bounds.
#[derive(Debug, Clone, Copy, PartialEq, Eq, Structural)]
pub enum Constraint {
    /// The weighted sum of the literals is at most `leq`.
    Leq { leq: i64 },
    /// The weighted sum of the literals is at least `geq`.
    Geq { geq: i64 },
    /// The weighted sum of the literals lies between `geq` and `leq`.
    Both { leq: i64, geq: i64 },
    /// At most `k` of the literals are true.
    AtMostK { k: i64 },
    /// At least `k` of the literals are true.
    AtLeastK { k: i64 },
}

impl Constraint {
    /// Whether the constraint gives each literal a weight.
    pub open spec fn weighted(self) -> bool {
        self is Leq || self is Geq || self is Both
    }

    /// Whether the constraint gives each literal a weight.
    pub fn is_weighted(&self) -> (r: bool)
        ensures
            r == self.weighted(),
    {
        match self {
            Constraint::Leq { .. } | Constraint::Geq { .. } | Constraint::Both { .. } => true,
            Constraint::AtMostK { .. } | Constraint::AtLeastK { .. } => false,
        }
    }
}

/// What an [`EngineCall`] stands for.
pub struct CallModel {
    pub constraint: Constraint,
    /// One weight per literal; empty for a cardinality constraint.
    pub weights: Seq<i64>,
    pub literals: Seq<i32>,
    pub first_aux_var: i32,
}

impl CallModel {
    /// A call that the engine may be entered with: the literals can be
    /// counted in a signed 32-bit integer, and the weights match them one for
    /// one where the constraint has weights.
    pub open spec fn wf(self) -> bool {
        &&& self.literals.len() <= i32::MAX
        &&& if self.constraint.weighted() {
            self.weights.len() == self.literals.len()
        } else {
            self.weights.len() == 0
        }
    }
}

/// The outcome of marshalling a constraint: a call that carries every
/// argument as given, unless the literals are too many to count.
pub open spec fn marshalled(
    constraint: Constraint,
    weights: Seq<i64>,
    literals: Seq<i32>,
    first_aux_var: i32,
) -> Result<CallModel, EncodeError> {
    if literals.len() > i32::MAX {
        Err(EncodeError::TooManyLiterals { len: literals.len() as usize })
    } else {
        Ok(CallModel { constraint, weights, literals, first_aux_var })
    }
}

/// What a result of marshalling stands for.
pub open spec fn call_outcome(r: Result<EngineCall, EncodeError>) -> Result<CallModel, EncodeError> {
    match r {
        Ok(call) => Ok(call@),
        Err(e) => Err(e),
    }
}

/// Demands that a weighted constraint has as many weights as literals.
///
/// Only the two lengths matter, not what the slices hold. Unequal lengths
/// are an error of the caller: no call with them is admitted.
pub fn assert_len_eq(weights: &[i64], literals: &[i32])
    requires
        weights@.len() == literals@.len(),
{
}

/// Converts a number of terms to the signed 32-bit count that the engine
/// takes.
pub fn marshal_len(len: usize) -> (r: Result<i32, EncodeError>)
    ensures
        len <= i32::MAX ==> r == Ok::<i32, EncodeError>(len as i32),
        len > i32::MAX ==> r == Err::<i32, EncodeError>((EncodeError::TooManyLiterals { len })),
{
    if len <= 0x7fff_ffff {
        Ok(len as i32)
    } else {
        Err(EncodeError::TooManyLiterals { len })
    }
}

/// One call of the engine, validated and marshalled: which entry point to
/// enter and every argument to enter it with.
#[derive(Debug, PartialEq, Eq)]
pub struct EngineCall {
    constraint: Constraint,
    weights: Vec<i64>,
    weights_len: i32,
    literals: Vec<i32>,
    literals_len: i32,
    first_aux_var: i32,
}

impl View for EngineCall {
    type V = CallModel;

    closed spec fn view(&self) -> CallModel {
        CallModel {
            constraint: self.constraint,
            weights: self.weights@,
            literals: self.literals@,
            first_aux_var: self.first_aux_var,
        }
    }
}

impl EngineCall {
    #[verifier::type_invariant]
    spec fn inv(self) -> bool {
        &&& self@.wf()
        &&& self.weights_len == self.weights@.len()
        &&& self.literals_len == self.literals@.len()
    }

    /// Validates and marshals a constraint of any of the five kinds.
    fn marshal(
        constraint: Constraint,
        weights: Vec<i64>,
        literals: Vec<i32>,
        first_aux_var: i32,
    ) -> (r: Result<EngineCall, EncodeError>)
        requires
            constraint.weighted() ==> weights@.len() == literals@.len(),
            !constraint.weighted() ==> weights@.len() == 0,
        ensures
            call_outcome(r) == marshalled(constraint, weights@, literals@, first_aux_var),
    {
        if constraint.is_weighted() {
            assert_len_eq(weights.as_slice(), literals.as_slice());
        }
        let literals_len: i32 = match marshal_len(literals.len()) {
            Ok(len) => len,
            Err(e) => {
                return Err(e);
            },
        };
        let weights_len: i32 = if constraint.is_weighted() {
            literals_len
        } else {
            0
        };
        Ok(EngineCall { constraint, weights, weights_len, literals, literals_len, first_aux_var })
    }

    /// Prepares the encoding of an at-most pseudo-Boolean constraint: the
    /// weighted sum of the literals is less than or equal to `leq`.
    ///
    /// The weight at index `i` belongs to the literal at index `i`, so the two
    /// vectors must have the same length. `first_aux_var` is the lowest variable index that
    /// the engine may use for auxiliary variables, in most cases the highest
    /// index in use plus one; it is handed on as given.
    pub fn encode_leq(weights: Vec<i64>, literals: Vec<i32>, leq: i64, first_aux_var: i32) -> (r:
        Result<EngineCall, EncodeError>)
        requires
            weights@.len() == literals@.len(),
        ensures
            call_outcome(r) == marshalled(
                (Constraint::Leq { leq }),
                weights@,
                literals@,
                first_aux_var,
            ),
    {
        Self::marshal(Constraint::Leq { leq }, weights, literals, first_aux_var)
    }

    /// Prepares the encoding of an at-least pseudo-Boolean constraint: the
    /// weighted sum of the literals is greater than or equal to `geq`.
    ///
    /// The vectors and `first_aux_var` are as for [`encode_leq`](Self::encode_leq).
    pub fn encode_geq(weights: Vec<i64>, literals: Vec<i32>, geq: i64, first_aux_var: i32) -> (r:
        Result<EngineCall, EncodeError>)
        requires
            weights@.len() == literals@.len(),
        ensures
            call_outcome(r) == marshalled(
                (Constraint::Geq { geq }),
                weights@,
                literals@,
                first_aux_var,
            ),
    {
        Self::marshal(Constraint::Geq { geq }, weights, literals, first_aux_var)
    }

    /// Prepares the joint encoding of an at-most and an at-least
    /// pseudo-Boolean constraint over the same weights and literals: the
    /// weighted sum lies between `greater_or_eq` and `less_or_eq`.
    ///
    /// The bounds are not compared: an upper bound below the lower one is
    /// handed on, and the engine answers with clauses that cannot be
    /// satisfied.
    pub fn encode_both(
        weights: Vec<i64>,
        literals: Vec<i32>,
        less_or_eq: i64,
        greater_or_eq: i64,
        first_aux_var: i32,
    ) -> (r: Result<EngineCall, EncodeError>)
        requires
            weights@.len() == literals@.len(),
        ensures
            call_outcome(r) == marshalled(
                (Constraint::Both { leq: less_or_eq, geq: greater_or_eq }),
                weights@,
                literals@,
                first_aux_var,
            ),
    {
        Self::marshal(
            Constraint::Both { leq: less_or_eq, geq: greater_or_eq },
            weights,
            literals,
            first_aux_var,
        )
    }

    /// Prepares the encoding of an at-most-k cardinality constraint: at most
    /// `k` of the literals are true.
    ///
    /// `k` is handed on as given, whatever its sign.
    pub fn encode_at_most_k(literals: Vec<i32>, k: i64, first_aux_var: i32) -> (r: Result<
        EngineCall,
        EncodeError,
    >)
        ensures
            call_outcome(r) == marshalled(
                (Constraint::AtMostK { k }),
                Seq::empty(),
                literals@,
                first_aux_var,
            ),
    {
        Self::marshal(Constraint::AtMostK { k }, Vec::new(), literals, first_aux_var)
    }

    /// Prepares the encoding of an at-least-k cardinality constraint: at
    /// least `k` of the literals are true.
    ///
    /// `k` is handed on as given, whatever its sign.
    pub fn encode_at_least_k(literals: Vec<i32>, k: i64, first_aux_var: i32) -> (r: Result<
        EngineCall,
        EncodeError,
    >)
        ensures
            call_outcome(r) == marshalled(
                (Constraint::AtLeastK { k }),
                Seq::empty(),
                literals@,
                first_aux_var,
            ),
    {
        Self::marshal(Constraint::AtLeastK { k }, Vec::new(), literals, first_aux_var)
    }

    /// The relation to encode and its bounds.
    pub fn constraint(&self) -> (r: Constraint)
        ensures
            r == self@.constraint,
    {
        self.constraint
    }

    /// The weights, one per literal; empty for a cardinality constraint.
    pub fn weights(&self) -> (r: &[i64])
        ensures
            r@ == self@.weights,
    {
        self.weights.as_slice()
    }

    /// The number of weights, as the engine takes it.
    pub fn weights_len(&self) -> (r: i32)
        ensures
            r == self@.weights.len(),
            self@.wf(),
    {
        proof {
            use_type_invariant(self);
        }
        self.weights_len
    }

    /// The literals, in DIMACS convention.
    pub fn literals(&self) -> (r: &[i32])
        ensures
            r@ == self@.literals,
    {
        self.literals.as_slice()
    }

    /// The number of literals, as the engine takes it.
    pub fn literals_len(&self) -> (r: i32)
        ensures
            r == self@.literals.len(),
            self@.wf(),
    {
        proof {
            use_type_invariant(self);
        }
        self.literals_len
    }

    /// The lowest variable index that the engine may use for auxiliary
    /// variables.
    pub fn first_aux_var(&self) -> (r: i32)
        ensures
            r == self@.first_aux_var,
    {
        self.first_aux_var
    }
}

} // verus!
