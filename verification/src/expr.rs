//! The expression model over which structured columns are synthesized.
//!
//! A binary field of bit width `n <= 128` is treated as an `n`-dimensional
//! vector space over the one-bit base field: an element is represented by its
//! coordinate vector, packed into a `u128` bit pattern. The `i`-th canonical
//! basis vector is the pattern `1 << i`, and field addition is coordinate-wise
//! over the base field, i.e. bitwise xor. The representation pins a product
//! only where a factor lies in the one-bit subfield `{0, 1}` — zero
//! annihilates and one is the identity in every field — and `eval_defined`
//! marks exactly that fragment; products of two larger elements depend on the
//! field's multiplicative structure, which this model leaves to the
//! surrounding proof system. Every expression synthesized by this crate
//! multiplies only boolean-valued variables by constants, so its evaluation
//! never leaves the pinned fragment.

use vstd::prelude::*;

verus! {

/// A closed-form arithmetic expression over row-local boolean variables and
/// field constants.
#[derive(Debug, PartialEq, Eq)]
pub enum ArithExpr {
    /// A reference to the row-local boolean variable with the given index.
    Var(usize),
    /// A field constant, as the bit pattern of its basis-coordinate vector.
    Const(u128),
    /// The sum of two subexpressions.
    Add(Box<ArithExpr>, Box<ArithExpr>),
    /// The product of two subexpressions.
    Mul(Box<ArithExpr>, Box<ArithExpr>),
}

/// The product of two field elements of which at least one lies in the one-bit
/// subfield `{0, 1}`; such products are determined in every field. The final
/// branch is never reached under `eval_defined`.
pub open spec fn b1_product(a: u128, b: u128) -> u128 {
    if a == 0 || b == 0 {
        0
    } else if a == 1 {
        b
    } else if b == 1 {
        a
    } else {
        0
    }
}

/// The value of an expression at a point: variable `i` takes the point's
/// `i`-th coordinate, and addition is coordinate-wise over the base field.
/// The value is meaningful only where `eval_defined` holds.
pub open spec fn eval(e: ArithExpr, point: Seq<u128>) -> u128
    decreases e,
{
    match e {
        ArithExpr::Var(i) => if i < point.len() { point[i as int] } else { 0 },
        ArithExpr::Const(c) => c,
        ArithExpr::Add(a, b) => eval(*a, point) ^ eval(*b, point),
        ArithExpr::Mul(a, b) => b1_product(eval(*a, point), eval(*b, point)),
    }
}

/// Whether the basis representation determines the value of `e` at `point`:
/// every variable must be bound by the point, and each product must have a
/// factor in the one-bit subfield `{0, 1}`.
pub open spec fn eval_defined(e: ArithExpr, point: Seq<u128>) -> bool
    decreases e,
{
    match e {
        ArithExpr::Var(i) => i < point.len(),
        ArithExpr::Const(_) => true,
        ArithExpr::Add(a, b) => eval_defined(*a, point) && eval_defined(*b, point),
        ArithExpr::Mul(a, b) => eval_defined(*a, point) && eval_defined(*b, point)
            && (eval(*a, point) <= 1 || eval(*b, point) <= 1),
    }
}

/// Bit `i` of row index `r`, as a field value: zero or one.
pub open spec fn bit_at(r: u128, i: u128) -> u128 {
    (r >> i) & 1
}

/// The boolean hypercube point addressing row `r` over `m` coordinates:
/// coordinate `i` is bit `i` of `r`, embedded into the field as zero or one.
pub open spec fn point_of_index(r: u128, m: nat) -> Seq<u128> {
    Seq::new(m, |i: int| bit_at(r, i as u128))
}

/// Evaluates an expression at a point. Returns `None` exactly where the basis
/// representation does not determine the value: an unbound variable, or a
/// product with no factor in the one-bit subfield.
pub fn eval_expr(e: &ArithExpr, point: &Vec<u128>) -> (r: Option<u128>)
    ensures
        r == (if eval_defined(*e, point@) {
            Some(eval(*e, point@))
        } else {
            None::<u128>
        }),
    decreases e,
{
    match e {
        ArithExpr::Var(i) => {
            if *i < point.len() {
                Some(point[*i])
            } else {
                None
            }
        },
        ArithExpr::Const(c) => Some(*c),
        ArithExpr::Add(a, b) => {
            match (eval_expr(&**a, point), eval_expr(&**b, point)) {
                (Some(x), Some(y)) => Some(x ^ y),
                _ => None,
            }
        },
        ArithExpr::Mul(a, b) => {
            match (eval_expr(&**a, point), eval_expr(&**b, point)) {
                (Some(x), Some(y)) => {
                    if x == 0 || y == 0 {
                        Some(0)
                    } else if x == 1 {
                        Some(y)
                    } else if y == 1 {
                        Some(x)
                    } else {
                        None
                    }
                },
                _ => None,
            }
        },
    }
}

/// Computes the boolean hypercube point for row index `r` over `m`
/// coordinates.
pub fn index_to_point(r: u128, m: usize) -> (point: Vec<u128>)
    requires
        m <= 128,
    ensures
        point@ == point_of_index(r, m as nat),
{
    let mut point: Vec<u128> = Vec::new();
    let mut i: usize = 0;
    while i < m
        invariant
            i <= m <= 128,
            point@.len() == i,
            forall|j: int| 0 <= j < i ==> point@[j] == bit_at(r, j as u128),
        decreases m - i,
    {
        point.push((r >> (i as u128)) & 1);
        i = i + 1;
    }
    assert(point@ =~= point_of_index(r, m as nat));
    point
}

/// The values a structured column takes on rows `start..start + count`,
/// derived by evaluating its expression at each row's hypercube point over
/// `m` coordinates.
pub open spec fn column_values(e: ArithExpr, m: nat, start: u128, count: nat) -> Seq<u128> {
    Seq::new(count, |i: int| eval(e, point_of_index((start + i) as u128, m)))
}

/// Chunk-invariance: materializing the rows `start..start + count` in two
/// chunks split at `start + k` yields exactly the one-pass materialization,
/// so segment boundaries never change derived values.
pub proof fn lemma_chunk_invariance(e: ArithExpr, m: nat, start: u128, count: nat, k: nat)
    requires
        k <= count,
        start + count <= u128::MAX + 1,
    ensures
        column_values(e, m, start, count) == column_values(e, m, start, k)
            + column_values(e, m, (start + k) as u128, (count - k) as nat),
{
    let whole = column_values(e, m, start, count);
    let split = column_values(e, m, start, k)
        + column_values(e, m, (start + k) as u128, (count - k) as nat);
    assert(whole =~= split) by {
        assert forall|i: int| 0 <= i < count implies whole[i] == split[i] by {
            if k <= i {
                assert(((start + k) as u128 + (i - k)) as u128 == (start + i) as u128);
            }
        }
    }
}

/// Materializes the values of a column expression for the rows
/// `start..start + count`. Returns `None` exactly when some row's value is
/// not determined by the basis representation.
pub fn materialize_column(e: &ArithExpr, m: usize, start: u128, count: usize) -> (r: Option<
    Vec<u128>,
>)
    requires
        m <= 128,
        start + count <= u128::MAX + 1,
    ensures
        (r matches Some(values) ==> values@ == column_values(
            *e,
            m as nat,
            start,
            count as nat,
        )),
        r is Some <==> (forall|row: u128|
            start <= row < start + count ==> eval_defined(*e, point_of_index(row, m as nat))),
{
    let mut values: Vec<u128> = Vec::new();
    let mut row: usize = 0;
    while row < count
        invariant
            row <= count,
            m <= 128,
            start + count <= u128::MAX + 1,
            values@.len() == row,
            forall|past: u128|
                start <= past < start + row ==> eval_defined(*e, point_of_index(past, m as nat)),
            forall|i: int|
                0 <= i < row ==> values@[i] == eval(
                    *e,
                    point_of_index((start + i) as u128, m as nat),
                ),
        decreases count - row,
    {
        let idx: u128 = start + (row as u128);
        let point = index_to_point(idx, m);
        match eval_expr(e, &point) {
            Some(v) => {
                values.push(v);
            },
            None => {
                assert(!eval_defined(*e, point_of_index(idx, m as nat)));
                return None;
            },
        }
        row = row + 1;
    }
    assert(values@ =~= column_values(*e, m as nat, start, count as nat));
    Some(values)
}

} // verus!
