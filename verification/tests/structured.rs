//! Tests for structured-column validation, synthesis, and evaluation.

use structured_column::expr::{eval_expr, index_to_point, materialize_column};
use structured_column::{incrementing_expr, ArithExpr, Error, StructuredDynSize};

/// Counts the product terms of a synthesized sum.
fn count_terms(e: &ArithExpr) -> usize {
    match e {
        ArithExpr::Var(_) => 0,
        ArithExpr::Const(_) => 0,
        ArithExpr::Add(a, b) => count_terms(a) + count_terms(b),
        ArithExpr::Mul(_, _) => 1,
    }
}

#[test]
fn test_incrementing_expr() {
    let expr = incrementing_expr(5, 32).unwrap();
    for i in 0..1u128 << 5 {
        let bits = index_to_point(i, 5);
        assert_eq!(eval_expr(&expr, &bits).unwrap(), i);
    }
}

#[test]
fn test_check_nvars_boundary() {
    let spec = StructuredDynSize::Incrementing { max_size_log: 5 };
    assert!(spec.check_nvars(0).is_ok());
    assert!(spec.check_nvars(5).is_ok());
    assert_eq!(spec.check_nvars(6), Err(Error::TableSizeTooLarge));
    assert_eq!(spec.check_nvars(usize::MAX), Err(Error::TableSizeTooLarge));
}

#[test]
fn test_field_width_boundary() {
    for m in 0..=32 {
        let spec = StructuredDynSize::Incrementing { max_size_log: m };
        assert!(spec.expr(32).is_ok());
    }
    let spec = StructuredDynSize::Incrementing { max_size_log: 33 };
    assert_eq!(spec.expr(32), Err(Error::MaxLogSizeTooLarge));
}

#[test]
fn test_degenerate_capacity_is_constant_zero() {
    let spec = StructuredDynSize::Incrementing { max_size_log: 0 };
    let expr = spec.expr(32).unwrap();
    assert_eq!(expr, ArithExpr::Const(0));
    assert_eq!(eval_expr(&expr, &Vec::new()).unwrap(), 0);
}

#[test]
fn test_synthesis_deterministic() {
    let spec = StructuredDynSize::Incrementing { max_size_log: 7 };
    let e1 = spec.expr(64).unwrap();
    let e2 = spec.expr(64).unwrap();
    assert_eq!(e1, e2);
    for r in 0..1u128 << 7 {
        let point = index_to_point(r, 7);
        assert_eq!(eval_expr(&e1, &point), eval_expr(&e2, &point));
    }
}

#[test]
fn test_chunked_materialization_matches_one_pass() {
    let spec = StructuredDynSize::Incrementing { max_size_log: 5 };
    let expr = spec.expr(32).unwrap();
    let whole = materialize_column(&expr, 5, 0, 32).unwrap();
    for chunk in [1usize, 3, 4, 7, 32] {
        let mut chunked: Vec<u128> = Vec::new();
        let mut start = 0u128;
        while (start as usize) < 32 {
            let len = chunk.min(32 - start as usize);
            chunked.extend(materialize_column(&expr, 5, start, len).unwrap());
            start += len as u128;
        }
        assert_eq!(chunked, whole);
    }
    let expected: Vec<u128> = (0..32).collect();
    assert_eq!(whole, expected);
}

#[test]
fn test_full_capacity_on_matching_field() {
    let spec = StructuredDynSize::Incrementing { max_size_log: 32 };
    assert!(spec.check_nvars(5).is_ok());
    let expr = spec.expr(32).unwrap();
    assert_eq!(count_terms(&expr), 32);
    // With the 27 high coordinates zero, the evaluated value reflects only
    // the low 5 bits of the row index.
    for i in 0..1u128 << 5 {
        let point = index_to_point(i, 32);
        assert_eq!(eval_expr(&expr, &point).unwrap(), i);
    }
}

#[test]
fn test_capacity_exceeds_field_width() {
    let spec = StructuredDynSize::Incrementing { max_size_log: 40 };
    assert_eq!(spec.expr(32), Err(Error::MaxLogSizeTooLarge));
}

#[test]
fn test_table_size_exceeds_capacity() {
    let spec = StructuredDynSize::Incrementing { max_size_log: 5 };
    assert_eq!(spec.check_nvars(6), Err(Error::TableSizeTooLarge));
}

#[test]
fn test_max_size_log() {
    let spec = StructuredDynSize::Incrementing { max_size_log: 12 };
    assert_eq!(spec.max_size_log(), 12);
}

#[test]
fn test_eval_undetermined_products() {
    // A product with no factor in the one-bit subfield is not determined by
    // the basis representation.
    let product = ArithExpr::Mul(
        Box::new(ArithExpr::Const(2)),
        Box::new(ArithExpr::Const(3)),
    );
    assert_eq!(eval_expr(&product, &Vec::new()), None);
    let scaled = ArithExpr::Mul(
        Box::new(ArithExpr::Const(1)),
        Box::new(ArithExpr::Const(7)),
    );
    assert_eq!(eval_expr(&scaled, &Vec::new()), Some(7));
    let unbound = ArithExpr::Var(3);
    assert_eq!(eval_expr(&unbound, &index_to_point(0, 2)), None);
    assert_eq!(materialize_column(&product, 0, 0, 4), None);
}

#[test]
fn test_math_error_carries_cause() {
    let e = Error::Math(String::from("matrix is singular"));
    assert_eq!(e, Error::Math(String::from("matrix is singular")));
    assert_ne!(e, Error::Math(String::from("other")));
    assert_ne!(e, Error::MaxLogSizeTooLarge);
}

#[test]
fn test_largest_field_width() {
    let spec = StructuredDynSize::Incrementing { max_size_log: 128 };
    let expr = spec.expr(128).unwrap();
    assert_eq!(count_terms(&expr), 128);
    let top = u128::MAX;
    let point = index_to_point(top, 128);
    assert_eq!(eval_expr(&expr, &point).unwrap(), top);
    assert_eq!(
        StructuredDynSize::Incrementing { max_size_log: 129 }.expr(128),
        Err(Error::MaxLogSizeTooLarge)
    );
}
