//! Boundary layer of a pseudo-Boolean-constraint-to-CNF encoder.
//!
//! A native engine turns a weighted linear constraint over Boolean literals
//! (or an unweighted cardinality constraint) into clauses. This library holds
//! the two halves that surround a call of the engine: the validation and
//! marshalling of a constraint into an [`EngineCall`], and the decoding of the
//! flat, length-prefixed buffer that the engine hands back into an
//! [`EncodingResult`].

pub mod buffer;
pub mod encoding;
pub mod request;
pub mod variables;

pub use buffer::{decode_formula_data, viewable_len, DecodeError};
pub use encoding::EncodingResult;
pub use request::{assert_len_eq, marshal_len, Constraint, EncodeError, EngineCall};
