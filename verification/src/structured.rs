//! Structured-column specifications, their size validation, and expression
//! synthesis.

use vstd::prelude::*;
use crate::expr::{ArithExpr, bit_at, b1_product, column_values, eval, eval_defined, point_of_index};

verus! {

/// Errors arising from structured-column validation and synthesis. All of them
/// report a static configuration mismatch; none is transient, and none is
/// retried.
#[derive(Debug, PartialEq, Eq)]
pub enum Error {
    /// The declared capacity exceeds the chosen field's bit width:
    /// `max_size_log` must be less than or equal to the field's bit count.
    MaxLogSizeTooLarge,
    /// The finalized table size exceeds the declared capacity: the table's
    /// row-count exponent must be less than or equal to `max_size_log`.
    TableSizeTooLarge,
    /// A failure raised by the field/expression math collaborator, forwarded
    /// verbatim as its message.
    Math(String),
}

/// Specifications of structured columns that are generated from a dynamic
/// table size.
///
/// A structured column is one that has sufficient structure that its
/// multilinear extension can be evaluated succinctly. The variant set is
/// closed: every consumer matches exhaustively, so adding a generation rule is
/// a compile-time-enforced, review-forcing change.
#[derive(Debug, Clone, Copy, PartialEq, Eq, Structural)]
pub enum StructuredDynSize {
    /// A column whose values are incrementing binary field elements in
    /// lexicographic order.
    Incrementing {
        /// The base-2 logarithm of the maximum size of the column.
        max_size_log: usize,
    },
}

impl StructuredDynSize {
    /// The declared capacity: the base-2 logarithm of the maximum row count
    /// the column can serve.
    pub open spec fn spec_max_size_log(self) -> nat {
        match self {
            StructuredDynSize::Incrementing { max_size_log } => max_size_log as nat,
        }
    }

    /// Returns the maximum size (as a base-2 logarithm) of the column.
    pub fn max_size_log(&self) -> (m: usize)
        ensures
            m as nat == self.spec_max_size_log(),
    {
        match self {
            StructuredDynSize::Incrementing { max_size_log } => *max_size_log,
        }
    }

    /// Checks whether the given table size, specified as `n_vars`, can fit
    /// into this structured column specifier: succeeds if and only if
    /// `n_vars` is at most the declared capacity.
    pub fn check_nvars(&self, n_vars: usize) -> (r: Result<(), Error>)
        ensures
            r is Ok <==> n_vars as nat <= self.spec_max_size_log(),
            n_vars as nat > self.spec_max_size_log() ==> r == Err::<(), Error>(
                Error::TableSizeTooLarge,
            ),
    {
        if n_vars > self.max_size_log() {
            Err(Error::TableSizeTooLarge)
        } else {
            Ok(())
        }
    }

    /// Returns an arithmetic expression that represents the multilinear
    /// extension of the structured column, over a field of bit width
    /// `n_bits`. Fails if and only if the declared capacity exceeds the
    /// field's bit width. Widths up to 128 bits are supported: the model
    /// packs a field element's coordinate vector into a `u128`.
    pub fn expr(self, n_bits: usize) -> (r: Result<ArithExpr, Error>)
        requires
            n_bits <= 128,
        ensures
            self.spec_max_size_log() <= n_bits as nat ==> r == Ok::<ArithExpr, Error>(
                incrementing_expr_spec(self.spec_max_size_log()),
            ),
            self.spec_max_size_log() > n_bits as nat ==> r == Err::<ArithExpr, Error>(
                Error::MaxLogSizeTooLarge,
            ),
    {
        match self {
            StructuredDynSize::Incrementing { max_size_log } => incrementing_expr(
                max_size_log,
                n_bits,
            ),
        }
    }
}

/// The expression synthesized for an incrementing column over `m` row-local
/// boolean variables: the sum over `i < m` of `Var(i) * Const(basis(i))`,
/// the empty sum being the constant zero.
pub open spec fn incrementing_expr_spec(m: nat) -> ArithExpr
    decreases m,
{
    if m == 0 {
        ArithExpr::Const(0)
    } else {
        ArithExpr::Add(
            Box::new(incrementing_expr_spec((m - 1) as nat)),
            Box::new(
                ArithExpr::Mul(
                    Box::new(ArithExpr::Var((m - 1) as usize)),
                    Box::new(ArithExpr::Const(1u128 << ((m - 1) as u128))),
                ),
            ),
        )
    }
}

/// Returns the arithmetic expression for an incrementing column over a field
/// of bit width `n_bits`: the sum over `i < max_log_size` of the `i`-th
/// row-coordinate variable times the field's `i`-th canonical basis vector.
/// Fails with `MaxLogSizeTooLarge` if and only if `max_log_size` exceeds the
/// field's bit width; otherwise it deterministically returns exactly
/// `incrementing_expr_spec(max_log_size)`.
pub fn incrementing_expr(max_log_size: usize, n_bits: usize) -> (r: Result<ArithExpr, Error>)
    requires
        n_bits <= 128,
    ensures
        max_log_size as nat <= n_bits as nat ==> r == Ok::<ArithExpr, Error>(
            incrementing_expr_spec(max_log_size as nat),
        ),
        max_log_size as nat > n_bits as nat ==> r == Err::<ArithExpr, Error>(
            Error::MaxLogSizeTooLarge,
        ),
{
    if max_log_size > n_bits {
        return Err(Error::MaxLogSizeTooLarge);
    }
    let mut acc = ArithExpr::Const(0);
    let mut i: usize = 0;
    while i < max_log_size
        invariant
            i <= max_log_size <= n_bits <= 128,
            acc == incrementing_expr_spec(i as nat),
        decreases max_log_size - i,
    {
        let term = ArithExpr::Mul(
            Box::new(ArithExpr::Var(i)),
            Box::new(ArithExpr::Const(1u128 << (i as u128))),
        );
        acc = ArithExpr::Add(Box::new(acc), Box::new(term));
        i = i + 1;
    }
    Ok(acc)
}

/// The bit pattern whose low `w` bits are set.
pub(crate) open spec fn mask(w: u128) -> u128 {
    if w >= 128 {
        u128::MAX
    } else {
        ((1u128 << w) - 1) as u128
    }
}

/// Adding the term for coordinate `kk` of row `r` onto the value of the low
/// `kk` bits of `r` yields the value of its low `kk + 1` bits: the basis
/// vectors of distinct coordinates have disjoint support, so the field sum is
/// a bitwise or.
proof fn lemma_low_bits_step(r: u128, kk: u128)
    by (bit_vector)
    requires
        kk < 128,
    ensures
        (r & mask(kk)) ^ b1_product((r >> kk) & 1, 1u128 << kk) == r & mask((kk + 1) as u128),
        (r >> kk) & 1 == 0 || (r >> kk) & 1 == 1,
{
}

/// Evaluating the `m`-term incrementing expression at a point whose first `m`
/// coordinates are the bit expansion of a row index `r` is defined and yields
/// the value of the low `m` bits of `r`.
proof fn lemma_eval_incrementing(m: nat, r: u128, point: Seq<u128>)
    requires
        m <= 128,
        point.len() >= m,
        forall|i: int| 0 <= i < m ==> point[i] == bit_at(r, i as u128),
    ensures
        eval_defined(incrementing_expr_spec(m), point),
        eval(incrementing_expr_spec(m), point) == r & mask(m as u128),
    decreases m,
{
    if m == 0 {
        assert(r & mask(0) == 0) by (bit_vector);
    } else {
        // The m-term sum is the (m-1)-term sum plus the term for coordinate
        // m-1; unfold the evaluation of that term and combine it with the
        // induction hypothesis through the bit-level step lemma.
        let k = (m - 1) as nat;
        let kk = k as u128;
        lemma_eval_incrementing(k, r, point);
        lemma_low_bits_step(r, kk);
        let sub = incrementing_expr_spec(k);
        let term = ArithExpr::Mul(
            Box::new(ArithExpr::Var(k as usize)),
            Box::new(ArithExpr::Const(1u128 << kk)),
        );
        assert((m - 1) as u128 == kk);
        assert((m - 1) as usize == k as usize);
        assert(incrementing_expr_spec(m) == ArithExpr::Add(Box::new(sub), Box::new(term)));
        assert(point[k as int] == bit_at(r, kk));
        assert(k as usize as int == k as int);
        assert(eval(ArithExpr::Var(k as usize), point) == point[k as int]);
        assert(eval(ArithExpr::Const(1u128 << kk), point) == 1u128 << kk);
        assert(eval(term, point) == b1_product(
            eval(ArithExpr::Var(k as usize), point),
            eval(ArithExpr::Const(1u128 << kk), point),
        ));
        assert(eval(term, point) == b1_product((r >> kk) & 1, 1u128 << kk));
        assert(eval_defined(ArithExpr::Var(k as usize), point));
        assert(eval_defined(ArithExpr::Const(1u128 << kk), point));
        assert(eval(ArithExpr::Var(k as usize), point) <= 1);
        assert(eval_defined(term, point));
        assert(m as u128 == (kk + 1) as u128);
    }
}

/// Correctness of the incrementing rule: for every capacity `m` and every row
/// index `r` below `2^m`, evaluating the `m`-variable synthesized expression
/// at a boolean point whose first `m` coordinates are the bit expansion of
/// `r` is defined and yields the field element whose basis expansion is
/// exactly `r` — the multilinear extension of the sequence
/// `0, 1, ..., 2^m - 1`.
pub proof fn lemma_incrementing_expr_correct(m: nat, r: u128, point: Seq<u128>)
    requires
        m <= 128,
        m < 128 ==> r < (1u128 << (m as u128)),
        point.len() >= m,
        forall|i: int| 0 <= i < m ==> point[i] == bit_at(r, i as u128),
    ensures
        eval_defined(incrementing_expr_spec(m), point),
        eval(incrementing_expr_spec(m), point) == r,
{
    lemma_eval_incrementing(m, r, point);
    let mm = m as u128;
    if m < 128 {
        assert(r < (1u128 << mm) ==> r & mask(mm) == r) by (bit_vector)
            requires
                mm < 128,
        ;
    } else {
        assert(r & mask(128) == r) by (bit_vector);
    }
}

/// The incrementing column materializes to the row indices themselves: over
/// any row range that stays below the declared capacity `2^m`, the values
/// derived from the synthesized expression are exactly
/// `start, start + 1, ..., start + count - 1`.
pub proof fn lemma_incrementing_column_values(m: nat, start: u128, count: nat)
    requires
        m <= 128,
        m < 128 ==> start + count <= (1u128 << (m as u128)),
        m == 128 ==> start + count <= u128::MAX + 1,
    ensures
        column_values(incrementing_expr_spec(m), m, start, count) == Seq::new(
            count,
            |i: int| (start + i) as u128,
        ),
{
    let values = column_values(incrementing_expr_spec(m), m, start, count);
    let rows = Seq::new(count, |i: int| (start + i) as u128);
    assert(values =~= rows) by {
        assert forall|i: int| 0 <= i < count implies values[i] == rows[i] by {
            let r = (start + i) as u128;
            lemma_incrementing_expr_correct(m, r, point_of_index(r, m));
        }
    }
}

/// Determinism: the contracts of `StructuredDynSize::expr` and
/// `incrementing_expr` pin their result to `incrementing_expr_spec`, a
/// function of the capacity alone, so two synthesis results for identical
/// parameters are equal and evaluate identically at every point.
pub proof fn lemma_synthesis_deterministic(e1: ArithExpr, e2: ArithExpr, m: nat, point: Seq<u128>)
    requires
        e1 == incrementing_expr_spec(m),
        e2 == incrementing_expr_spec(m),
    ensures
        e1 == e2,
        eval(e1, point) == eval(e2, point),
{
}

} // verus!
