//! Decoder of the engine's flat output buffer.
//!
//! The engine answers every call with one flat sequence of signed 32-bit
//! integers:
//!
//! ```text
//! buffer[0]      total length of the buffer, in integers (L)
//! buffer[1]      next free variable id
//! buffer[2 .. L) clause records, each [length, lit_1, ..., lit_length]
//! ```
//!
//! [`decoded`] says what such a buffer means, [`framed`] is the inverse
//! direction, and [`decode_formula_data`] computes the former with every read
//! bounds-checked.

use crate::encoding::{clause_views, EncodingModel, EncodingResult};
use vstd::prelude::*;
use vstd::slice::{slice_subrange, slice_to_vec};

verus! {

/// Why a buffer is not a well-formed encoding.
#[derive(Debug, Clone, Copy, PartialEq, Eq, Structural)]
pub enum DecodeError {
    /// The buffer holds fewer than the two header integers.
    MissingHeader,
    /// The total length written at position 0 is not the number of integers
    /// in the buffer.
    LengthMismatch { declared: i32, actual: usize },
    /// The clause record that starts at `at` has a negative length.
    NegativeClauseLength { at: usize },
    /// The clause record that starts at `at` runs past the end of the buffer.
    TruncatedClause { at: usize },
}

/// The clause records that tile `buf` from position `at` to its end, or the
/// first defect met when scanning forward from `at`.
pub open spec fn clause_records(buf: Seq<i32>, at: int) -> Result<Seq<Seq<i32>>, DecodeError>
    decreases buf.len() - at,
{
    if at < 0 || at >= buf.len() {
        Ok(Seq::empty())
    } else if buf[at] < 0 {
        Err(DecodeError::NegativeClauseLength { at: at as usize })
    } else if at + 1 + buf[at] > buf.len() {
        Err(DecodeError::TruncatedClause { at: at as usize })
    } else {
        match clause_records(buf, at + 1 + buf[at]) {
            Ok(rest) => Ok(seq![buf.subrange(at + 1, at + 1 + buf[at])] + rest),
            Err(e) => Err(e),
        }
    }
}

/// What a buffer decodes to: the header is checked first, then the clause
/// records are scanned from position 2.
pub open spec fn decoded(buf: Seq<i32>) -> Result<EncodingModel, DecodeError> {
    if buf.len() < 2 {
        Err(DecodeError::MissingHeader)
    } else if buf[0] != buf.len() {
        Err(DecodeError::LengthMismatch { declared: buf[0], actual: buf.len() as usize })
    } else {
        match clause_records(buf, 2) {
            Ok(clauses) => Ok(EncodingModel { clauses, next_free_var_id: buf[1] }),
            Err(e) => Err(e),
        }
    }
}

/// The clause records of `clauses`, one after the other: each is the length
/// of a clause followed by its literals.
pub open spec fn records(clauses: Seq<Seq<i32>>) -> Seq<i32>
    decreases clauses.len(),
{
    if clauses.len() == 0 {
        Seq::empty()
    } else {
        seq![clauses[0].len() as i32] + clauses[0] + records(clauses.drop_first())
    }
}

/// Whether an encoding is small enough for its buffer's length to be written
/// in the buffer's first integer.
pub open spec fn frameable(m: EncodingModel) -> bool {
    2 + records(m.clauses).len() <= i32::MAX
}

/// The buffer that holds an encoding: the total length, the next free
/// variable id, then the clause records.
pub open spec fn framed(m: EncodingModel) -> Seq<i32> {
    seq![(2 + records(m.clauses).len()) as i32, m.next_free_var_id] + records(m.clauses)
}

/// `done` followed by the outcome of the rest of a scan.
spec fn after(done: Seq<Seq<i32>>, rest: Result<Seq<Seq<i32>>, DecodeError>) -> Result<
    Seq<Seq<i32>>,
    DecodeError,
> {
    match rest {
        Ok(more) => Ok(done + more),
        Err(e) => Err(e),
    }
}

/// The number of integers that may be viewed as the buffer whose first
/// integer is `header`: the total length that the header gives, or, where it
/// gives none that leaves room for the two header integers, that first integer
/// alone.
pub open spec fn viewable(header: i32) -> usize {
    if header >= 2 {
        header as usize
    } else {
        1
    }
}

/// Reads from the first integer of a buffer how much of the engine's memory
/// may be viewed as the buffer.
///
/// A first integer below two is no length of a buffer: nothing may then be
/// read beyond it, and the view of that one integer decodes to
/// [`DecodeError::MissingHeader`].
pub fn viewable_len(header: i32) -> (r: usize)
    ensures
        r == viewable(header),
{
    if header >= 2 {
        header as usize
    } else {
        1
    }
}

/// What a result of decoding stands for.
pub open spec fn decode_outcome(r: Result<EncodingResult, DecodeError>) -> Result<
    EncodingModel,
    DecodeError,
> {
    match r {
        Ok(result) => Ok(result@),
        Err(e) => Err(e),
    }
}

/// Decodes the buffer of one engine reply.
///
/// The buffer is only read. The result is `Ok` exactly when the buffer is
/// well formed, and then holds the clauses in buffer order and the next free
/// variable id of position 1; no literal is inspected. Otherwise the error
/// names the first defect.
pub fn decode_formula_data(data: &[i32]) -> (r: Result<EncodingResult, DecodeError>)
    ensures
        decode_outcome(r) == decoded(data@),
        r is Ok ==> framed(decode_outcome(r)->Ok_0) == data@,
        r is Ok ==> viewable(data@[0]) == data@.len(),
{
    let n: usize = data.len();
    if n < 2 {
        return Err(DecodeError::MissingHeader);
    }
    let declared: i32 = data[0];
    if declared < 0 || declared as usize != n {
        return Err(DecodeError::LengthMismatch { declared, actual: n });
    }
    let mut clauses: Vec<Vec<i32>> = Vec::with_capacity(n);
    let mut i: usize = 2;
    assert(after(clause_views(clauses@), clause_records(data@, 2)) =~= clause_records(data@, 2));
    while i < n
        invariant
            n == data@.len(),
            n == data@[0],
            2 <= i <= n,
            after(clause_views(clauses@), clause_records(data@, i as int)) == clause_records(
                data@,
                2,
            ),
        decreases n - i,
    {
        let raw: i32 = data[i];
        if raw < 0 {
            return Err(DecodeError::NegativeClauseLength { at: i });
        }
        let len: usize = raw as usize;
        if len > n - i - 1 {
            return Err(DecodeError::TruncatedClause { at: i });
        }
        let clause: Vec<i32> = slice_to_vec(slice_subrange(data, i + 1, i + 1 + len));
        let ghost done = clause_views(clauses@);
        clauses.push(clause);
        proof {
            assert(clause_views(clauses@) =~= done.push(clause@));
            if let Ok(more) = clause_records(data@, i + 1 + len) {
                assert(done.push(clause@) + more =~= done + (seq![clause@] + more));
            }
        }
        i = i + 1 + len;
    }
    proof {
        lemma_framed_decoded(data@);
    }
    Ok(EncodingResult::from_parts(clauses, data[1]))
}

/// A scan that starts where the records of `clauses` start, in a buffer that
/// holds nothing after them, yields `clauses`.
proof fn lemma_scan_of_records(buf: Seq<i32>, at: int, clauses: Seq<Seq<i32>>)
    requires
        0 <= at <= buf.len(),
        buf.subrange(at, buf.len() as int) == records(clauses),
        records(clauses).len() <= i32::MAX,
    ensures
        clause_records(buf, at) == Ok::<Seq<Seq<i32>>, DecodeError>(clauses),
    decreases clauses.len(),
{
    let tail = buf.subrange(at, buf.len() as int);
    if clauses.len() == 0 {
        assert(tail.len() == 0);
        assert(clauses =~= Seq::empty());
    } else {
        let first = clauses[0];
        let others = clauses.drop_first();
        let head = seq![first.len() as i32] + first;
        assert(tail == head + records(others));
        assert(buf[at] == tail[0]);
        let next = at + 1 + first.len();
        assert(buf.subrange(at + 1, next) =~= first) by {
            assert forall|j: int| 0 <= j < first.len() implies buf[at + 1 + j] == first[j] by {
                assert(buf[at + 1 + j] == tail[1 + j]);
            }
        }
        assert(buf.subrange(next, buf.len() as int) =~= records(others)) by {
            assert forall|j: int| 0 <= j < records(others).len() implies buf[next + j] == records(
                others,
            )[j] by {
                assert(buf[next + j] == tail[1 + first.len() + j]);
            }
        }
        lemma_scan_of_records(buf, next, others);
        assert(seq![first] + others =~= clauses);
    }
}

/// What a scan yields from `at`, written out as records, is the buffer from
/// `at` to its end.
proof fn lemma_records_of_scan(buf: Seq<i32>, at: int)
    requires
        0 <= at <= buf.len(),
        clause_records(buf, at) is Ok,
    ensures
        records(clause_records(buf, at)->Ok_0) == buf.subrange(at, buf.len() as int),
    decreases buf.len() - at,
{
    let clauses = clause_records(buf, at)->Ok_0;
    if at >= buf.len() {
        assert(records(clauses) =~= buf.subrange(at, buf.len() as int));
    } else {
        let next = at + 1 + buf[at];
        let first = buf.subrange(at + 1, next);
        let others = clause_records(buf, next)->Ok_0;
        lemma_records_of_scan(buf, next);
        assert(clauses[0] == first);
        assert(clauses.drop_first() =~= others);
        assert(records(clauses) =~= buf.subrange(at, buf.len() as int));
    }
}

/// Decoding undoes framing: the buffer that holds an encoding decodes to that
/// encoding, clause for clause and literal for literal.
pub proof fn lemma_decoded_framed(m: EncodingModel)
    requires
        frameable(m),
    ensures
        decoded(framed(m)) == Ok::<EncodingModel, DecodeError>(m),
{
    let buf = framed(m);
    assert(buf.subrange(2, buf.len() as int) =~= records(m.clauses));
    lemma_scan_of_records(buf, 2, m.clauses);
}

/// Framing undoes decoding: a buffer that decodes at all is the buffer that
/// holds what it decodes to, so no integer of it goes unread and two buffers
/// that decode to the same encoding are equal.
pub proof fn lemma_framed_decoded(buf: Seq<i32>)
    requires
        decoded(buf) is Ok,
    ensures
        frameable(decoded(buf)->Ok_0),
        framed(decoded(buf)->Ok_0) == buf,
{
    lemma_records_of_scan(buf, 2);
    assert(framed(decoded(buf)->Ok_0) =~= buf);
}

/// A buffer decodes exactly when it is the buffer that holds some encoding.
pub proof fn lemma_decodable_iff_framed(buf: Seq<i32>)
    ensures
        decoded(buf) is Ok <==> exists|m: EncodingModel| frameable(m) && #[trigger] framed(m) == buf,
{
    if decoded(buf) is Ok {
        lemma_framed_decoded(buf);
        assert(framed(decoded(buf)->Ok_0) == buf);
    }
    if exists|m: EncodingModel| frameable(m) && #[trigger] framed(m) == buf {
        let m = choose|m: EncodingModel| frameable(m) && #[trigger] framed(m) == buf;
        lemma_decoded_framed(m);
    }
}

/// Decoding is a function of the buffer's content alone: two results that
/// decoding gave for buffers of equal content stand for the same outcome.
pub proof fn lemma_decode_repeatable(
    first: Seq<i32>,
    second: Seq<i32>,
    r1: Result<EncodingResult, DecodeError>,
    r2: Result<EncodingResult, DecodeError>,
)
    requires
        first =~= second,
        decode_outcome(r1) == decoded(first),
        decode_outcome(r2) == decoded(second),
    ensures
        decode_outcome(r1) == decode_outcome(r2),
{
}

} // verus!
