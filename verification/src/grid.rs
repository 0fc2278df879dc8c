//! Shape of a square grid and row-major index arithmetic.

use vstd::prelude::*;

verus! {

/// A square grid of side `n`: exactly `n` rows, each holding exactly `n` cells.
pub open spec fn is_square<T>(rows: Seq<Vec<T>>, n: nat) -> bool {
    rows.len() == n && forall|i: int| 0 <= i < n ==> (#[trigger] rows[i])@.len() == n
}

/// Row-major index arithmetic: an entry of a row above row `i` lands strictly
/// below position `i * n`, and `i * n` itself never passes `n * n`.
pub proof fn lemma_row_major_bound(r: int, c: int, i: int, n: int)
    by (nonlinear_arith)
    requires
        0 <= r < i,
        0 <= c < n,
        i <= n,
    ensures
        0 <= r * n + c < i * n,
        i * n <= n * n,
{
}

} // verus!
