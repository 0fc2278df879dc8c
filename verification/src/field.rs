//! The field sampler: builds the square grid of classification values.
//!
//! Each cell of the field records whether the orbit of its sample coordinate
//! escaped. The escape decision itself is handed in as a kernel function of
//! the two grid indices; the sampler is verified for every kernel, so its
//! contract speaks of the kernel's own postcondition.

use vstd::prelude::*;

use crate::grid::is_square;

verus! {

/// A classification value: one of exactly two sentinels.
#[derive(Clone, Copy, Debug, PartialEq, Eq, Structural)]
pub enum Cell {
    /// The orbit stayed within the escape threshold.
    Bounded,
    /// The orbit left the escape threshold, or was poisoned by a non-number.
    Escaped,
}

/// The one invalid input of the sampler: a grid must have a positive side.
#[derive(Clone, Copy, Debug, PartialEq, Eq, Structural)]
pub enum FieldError {
    /// The requested grid dimension was zero.
    ZeroDimension,
}

/// The classification a cell receives for a given escape decision.
pub open spec fn classify_spec(is_escaped: bool) -> Cell {
    if is_escaped {
        Cell::Escaped
    } else {
        Cell::Bounded
    }
}

/// Whether a cell carries the escaped sentinel.
pub open spec fn escaped(c: Cell) -> bool {
    c is Escaped
}

/// Turn an escape decision into the cell's classification value.
pub fn classify(is_escaped: bool) -> (c: Cell)
    ensures
        c == classify_spec(is_escaped),
{
    if is_escaped {
        Cell::Escaped
    } else {
        Cell::Bounded
    }
}

/// Law: a classification value is exactly one of the two sentinels; no third
/// value exists, and the two are distinct.
pub proof fn lemma_cell_binary(c: Cell)
    ensures
        c == Cell::Bounded || c == Cell::Escaped,
        !(c == Cell::Bounded && c == Cell::Escaped),
{
    match c {
        Cell::Bounded => {},
        Cell::Escaped => {},
    }
}

/// Law: every cell of a square field holds one of the two sentinels and
/// nothing else.
pub proof fn lemma_field_binary(g: Vec<Vec<Cell>>, n: usize)
    requires
        is_square(g@, n as nat),
    ensures
        forall|i: int, j: int|
            0 <= i < n && 0 <= j < n ==> (#[trigger] g@[i]@[j]) == Cell::Bounded || g@[i]@[j]
                == Cell::Escaped,
{
    assert forall|i: int, j: int|
        0 <= i < n && 0 <= j < n implies (#[trigger] g@[i]@[j]) == Cell::Bounded || g@[i]@[j]
        == Cell::Escaped by {
        lemma_cell_binary(g@[i]@[j]);
    }
}

/// Build the square field of classification values for an `n` by `n` grid.
///
/// The escape kernel answers, for row `i` and column `j`, whether the orbit of
/// the sample coordinate at those indices escapes. A zero dimension is the one
/// rejected input; every positive `n` yields a fully populated `n` by `n`
/// field in which cell `(i, j)` classifies an answer the kernel allows for
/// `(i, j)`.
pub fn sample_field<F: Fn(usize, usize) -> bool>(n: usize, escapes: F) -> (r: Result<
    Vec<Vec<Cell>>,
    FieldError,
>)
    requires
        forall|i: usize, j: usize| i < n && j < n ==> call_requires(escapes, (i, j)),
    ensures
        r is Err <==> n == 0,
        r is Err ==> r->Err_0 == FieldError::ZeroDimension,
        r is Ok ==> is_square(r->Ok_0@, n as nat),
        r is Ok ==> forall|i: int, j: int|
            0 <= i < n && 0 <= j < n ==> call_ensures(
                escapes,
                (i as usize, j as usize),
                escaped(#[trigger] r->Ok_0@[i]@[j]),
            ),
{
    if n == 0 {
        return Err(FieldError::ZeroDimension);
    }
    let mut rows: Vec<Vec<Cell>> = Vec::new();
    let mut i: usize = 0;
    while i < n
        invariant
            i <= n,
            rows@.len() == i,
            forall|a: usize, b: usize| a < n && b < n ==> call_requires(escapes, (a, b)),
            forall|r2: int| 0 <= r2 < i ==> (#[trigger] rows@[r2])@.len() == n,
            forall|r2: int, c2: int|
                0 <= r2 < i && 0 <= c2 < n ==> call_ensures(
                    escapes,
                    (r2 as usize, c2 as usize),
                    escaped(#[trigger] rows@[r2]@[c2]),
                ),
        decreases n - i,
    {
        let mut row: Vec<Cell> = Vec::new();
        let mut j: usize = 0;
        while j < n
            invariant
                i < n,
                j <= n,
                row@.len() == j,
                forall|a: usize, b: usize| a < n && b < n ==> call_requires(escapes, (a, b)),
                forall|c2: int|
                    0 <= c2 < j ==> call_ensures(
                        escapes,
                        (i, c2 as usize),
                        escaped(#[trigger] row@[c2]),
                    ),
            decreases n - j,
        {
            let is_escaped = escapes(i, j);
            let cell = classify(is_escaped);
            row.push(cell);
            j += 1;
        }
        rows.push(row);
        i += 1;
    }
    Ok(rows)
}

/// Law (determinism): if the escape kernel allows only one answer per
/// coordinate, then any two square fields of one size whose cells classify
/// answers of that kernel are identical, row for row and cell for cell.
pub proof fn lemma_sample_deterministic<F: Fn(usize, usize) -> bool>(
    g1: Vec<Vec<Cell>>,
    g2: Vec<Vec<Cell>>,
    n: usize,
    escapes: F,
)
    requires
        is_square(g1@, n as nat),
        is_square(g2@, n as nat),
        forall|i: int, j: int|
            0 <= i < n && 0 <= j < n ==> call_ensures(
                escapes,
                (i as usize, j as usize),
                escaped(#[trigger] g1@[i]@[j]),
            ),
        forall|i: int, j: int|
            0 <= i < n && 0 <= j < n ==> call_ensures(
                escapes,
                (i as usize, j as usize),
                escaped(#[trigger] g2@[i]@[j]),
            ),
        forall|i: usize, j: usize, b1: bool, b2: bool|
            #![trigger call_ensures(escapes, (i, j), b1), call_ensures(escapes, (i, j), b2)]
            call_ensures(escapes, (i, j), b1) && call_ensures(escapes, (i, j), b2) ==> b1 == b2,
    ensures
        g1@.len() == g2@.len(),
        forall|i: int| 0 <= i < n ==> (#[trigger] g1@[i])@ == g2@[i]@,
{
    assert forall|i: int| 0 <= i < n implies (#[trigger] g1@[i])@ == g2@[i]@ by {
        assert forall|j: int| 0 <= j < n implies g1@[i]@[j] == g2@[i]@[j] by {
            let c1 = g1@[i]@[j];
            let c2 = g2@[i]@[j];
            assert(call_ensures(escapes, (i as usize, j as usize), escaped(c1)));
            assert(call_ensures(escapes, (i as usize, j as usize), escaped(c2)));
            lemma_cell_binary(c1);
            lemma_cell_binary(c2);
        }
        assert(g1@[i]@ =~= g2@[i]@);
    }
}

} // verus!
