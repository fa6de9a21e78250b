//! The buffer decoder on well-formed and on malformed buffers.

use pblib_rs::{decode_formula_data, viewable_len, DecodeError};

#[test]
fn test_decode_no_clause() {
    let encoding = decode_formula_data(&[2, 7]).unwrap();
    assert!(encoding.clauses().is_empty());
    assert_eq!(7, encoding.next_free_var_id());
}

#[test]
fn test_decode_keeps_buffer_order() {
    let data = [12, 9, 3, 4, -5, 6, 0, 1, -7, 2, 8, -8];
    let encoding = decode_formula_data(&data).unwrap();
    let expected: Vec<Vec<i32>> = vec![vec![4, -5, 6], vec![], vec![-7], vec![8, -8]];
    assert_eq!(expected, encoding.clauses());
    assert_eq!(9, encoding.next_free_var_id());
}

#[test]
fn test_decode_does_not_inspect_literals() {
    let encoding = decode_formula_data(&[6, -4, 3, 0, 0, i32::MIN]).unwrap();
    assert_eq!(&[vec![0, 0, i32::MIN]], encoding.clauses());
    assert_eq!(-4, encoding.next_free_var_id());
}

#[test]
fn test_decode_consumes_every_integer() {
    let data = [9, 3, 2, -1, -2, 1, 3, 1, -3];
    let encoding = decode_formula_data(&data).unwrap();
    let consumed: usize = encoding.clauses().iter().map(|c| c.len() + 1).sum();
    assert_eq!(data.len() - 2, consumed);
    let mut again = vec![i32::try_from(2 + consumed).unwrap(), encoding.next_free_var_id()];
    for clause in encoding.clauses() {
        again.push(i32::try_from(clause.len()).unwrap());
        again.extend_from_slice(clause);
    }
    assert_eq!(&data[..], &again[..]);
}

#[test]
fn test_decode_twice_gives_equal_results() {
    let data = vec![8, 3, 2, 1, 2, 2, -1, -2];
    let copy = data.clone();
    let first = decode_formula_data(&data);
    let second = decode_formula_data(&copy);
    assert!(first.is_ok());
    assert_eq!(first, second);
    let broken = vec![8, 3, 2, 1, 2, 3, -1, -2];
    assert_eq!(decode_formula_data(&broken), decode_formula_data(&broken.clone()));
}

#[test]
fn test_decode_missing_header() {
    assert_eq!(Err(DecodeError::MissingHeader), decode_formula_data(&[]));
    assert_eq!(Err(DecodeError::MissingHeader), decode_formula_data(&[1]));
    assert_eq!(Err(DecodeError::MissingHeader), decode_formula_data(&[2]));
}

#[test]
fn test_decode_length_mismatch() {
    assert_eq!(
        Err(DecodeError::LengthMismatch { declared: 3, actual: 2 }),
        decode_formula_data(&[3, 1])
    );
    assert_eq!(
        Err(DecodeError::LengthMismatch { declared: 2, actual: 3 }),
        decode_formula_data(&[2, 1, 0])
    );
    assert_eq!(
        Err(DecodeError::LengthMismatch { declared: -5, actual: 5 }),
        decode_formula_data(&[-5, 3, 2, -1, -2])
    );
}

#[test]
fn test_decode_negative_clause_length() {
    assert_eq!(
        Err(DecodeError::NegativeClauseLength { at: 2 }),
        decode_formula_data(&[4, 1, -1, 0])
    );
    assert_eq!(
        Err(DecodeError::NegativeClauseLength { at: 4 }),
        decode_formula_data(&[5, 1, 1, 7, -2])
    );
}

#[test]
fn test_decode_truncated_clause() {
    assert_eq!(Err(DecodeError::TruncatedClause { at: 2 }), decode_formula_data(&[4, 1, 2, 5]));
    assert_eq!(Err(DecodeError::TruncatedClause { at: 2 }), decode_formula_data(&[3, 1, 1]));
    assert_eq!(
        Err(DecodeError::TruncatedClause { at: 5 }),
        decode_formula_data(&[7, 1, 2, 5, 6, i32::MAX, 1])
    );
}

#[test]
fn test_decode_reports_first_defect() {
    assert_eq!(
        Err(DecodeError::TruncatedClause { at: 4 }),
        decode_formula_data(&[7, 1, 1, 5, 9, -1, 0])
    );
}

#[test]
fn test_viewable_len() {
    assert_eq!(2, viewable_len(2));
    assert_eq!(5, viewable_len(5));
    assert_eq!(2_147_483_647, viewable_len(i32::MAX));
    assert_eq!(1, viewable_len(1));
    assert_eq!(1, viewable_len(0));
    assert_eq!(1, viewable_len(-5));
    assert_eq!(1, viewable_len(i32::MIN));
}

#[test]
fn test_viewable_len_matches_decodable_buffer() {
    let data = [5, 3, 2, -1, -2];
    assert!(decode_formula_data(&data).is_ok());
    assert_eq!(data.len(), viewable_len(data[0]));
}

#[test]
fn test_view_of_bad_header_is_missing_header() {
    for header in [1, 0, -5, i32::MIN] {
        let memory = [header, 3, 2, -1, -2];
        let view = &memory[..viewable_len(header)];
        assert_eq!(Err(DecodeError::MissingHeader), decode_formula_data(view));
    }
}
