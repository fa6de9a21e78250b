//! The variable space that a call and its reply share.
//!
//! A caller that composes several encodings into one formula hands each call
//! a first auxiliary variable above every variable in use, and takes the next
//! free variable of the reply as the floor of the next call.

use crate::buffer::decoded;
use crate::request::CallModel;
use vstd::prelude::*;

verus! {

/// The index of the variable that a DIMACS literal speaks of.
pub open spec fn variable(literal: i32) -> int {
    if literal < 0 {
        -(literal as int)
    } else {
        literal as int
    }
}

/// Whether `floor` lies strictly above the variable of every literal.
pub open spec fn above_variables(floor: int, literals: Seq<i32>) -> bool {
    forall|i: int| 0 <= i < literals.len() ==> variable(#[trigger] literals[i]) < floor
}

/// Where the caller kept the first auxiliary variable above every variable of
/// the literals, and the reply's next free variable is no lower than the
/// first auxiliary variable, the decoded next free variable is no lower than
/// the first auxiliary variable and lies above every variable of the
/// literals.
pub proof fn lemma_next_free_var_above_literals(call: CallModel, reply: Seq<i32>)
    requires
        decoded(reply) is Ok,
        above_variables(call.first_aux_var as int, call.literals),
        reply[1] >= call.first_aux_var,
    ensures
        decoded(reply)->Ok_0.next_free_var_id >= call.first_aux_var,
        above_variables(decoded(reply)->Ok_0.next_free_var_id as int, call.literals),
{
}

} // verus!
