//! The flat exporter: packs a square grid into one contiguous buffer.
//!
//! The grid is laid out in row-major order — position `i * n + j` of the flat
//! buffer holds cell `(i, j)` of the grid — and travels with its element
//! count, which always equals the square of the grid's side. Handing the
//! buffer on to a foreign receiver (as a raw address plus that count) is the
//! business of the unverified boundary layer, which takes the storage and the
//! count from `into_parts`.

use vstd::prelude::*;

use crate::grid::is_square;
use crate::grid::lemma_row_major_bound;

verus! {

/// Flatten a square grid into row-major order: the result has one entry per
/// cell, and the cell at row `i`, column `j` lands at position `i * n + j`.
pub fn flatten<T: Copy>(g: &Vec<Vec<T>>) -> (flat: Vec<T>)
    requires
        is_square(g@, g@.len() as nat),
    ensures
        flat@.len() == g@.len() * g@.len(),
        forall|i: int, j: int|
            0 <= i < g@.len() && 0 <= j < g@.len() ==> flat@[i * g@.len() + j] == (
            #[trigger] g@[i]@[j]),
{
    let n = g.len();
    let mut flat: Vec<T> = Vec::new();
    let mut i: usize = 0;
    while i < n
        invariant
            n == g@.len(),
            is_square(g@, n as nat),
            i <= n,
            flat@.len() == i * n,
            forall|r: int, c: int|
                0 <= r < i && 0 <= c < n ==> flat@[r * n + c] == (#[trigger] g@[r]@[c]),
        decreases n - i,
    {
        let mut j: usize = 0;
        while j < n
            invariant
                n == g@.len(),
                is_square(g@, n as nat),
                i < n,
                j <= n,
                flat@.len() == i * n + j,
                forall|r: int, c: int|
                    0 <= r < i && 0 <= c < n ==> flat@[r * n + c] == (#[trigger] g@[r]@[c]),
                forall|c: int| 0 <= c < j ==> flat@[i * n + c] == (#[trigger] g@[i as int]@[c]),
            decreases n - j,
        {
            let v = g[i][j];
            flat.push(v);
            proof {
                assert forall|r: int, c: int|
                    0 <= r < i && 0 <= c < n implies flat@[r * n + c] == (#[trigger] g@[r]@[c]) by {
                    lemma_row_major_bound(r, c, i as int, n as int);
                }
            }
            j += 1;
        }
        proof {
            assert((i + 1) * n == i * n + n) by (nonlinear_arith);
        }
        i += 1;
    }
    flat
}

/// A flat, counted image of a square grid: the backing storage for the
/// boundary handle, before the unverified layer strips it down to a raw
/// address. Its element count is always the square of the grid's side.
pub struct FlatBuffer<T> {
    data: Vec<T>,
    side: usize,
}

impl<T> FlatBuffer<T> {
    /// The element count always equals the square of the side.
    #[verifier::type_invariant]
    spec fn inv(self) -> bool {
        self.data@.len() == self.side * self.side
    }

    /// The side of the grid this buffer was flattened from.
    pub closed spec fn spec_side(self) -> usize {
        self.side
    }

    /// The flat contents, in row-major order.
    pub closed spec fn contents(self) -> Seq<T> {
        self.data@
    }

    /// The cell at row `i`, column `j`, read from the flat storage.
    pub open spec fn cell(self, i: int, j: int) -> T {
        self.contents()[i * self.spec_side() + j]
    }

    /// The element count: authoritative, and always the square of the side.
    pub fn count(&self) -> (c: usize)
        ensures
            c == self.contents().len(),
            c == self.spec_side() * self.spec_side(),
    {
        proof {
            use_type_invariant(&*self);
        }
        self.data.len()
    }

    /// The side of the grid this buffer was flattened from.
    pub fn side(&self) -> (s: usize)
        ensures
            s == self.spec_side(),
    {
        self.side
    }

    /// Give up the storage: the buffer's owner takes the backing vector and
    /// the authoritative count, and this value ceases to exist. Whoever takes
    /// the pair carries the whole responsibility for the storage from here on.
    pub fn into_parts(self) -> (p: (Vec<T>, usize))
        ensures
            p.0@ == self.contents(),
            p.1 == p.0@.len(),
            p.1 == self.spec_side() * self.spec_side(),
    {
        proof {
            use_type_invariant(&self);
        }
        let FlatBuffer { data, side: _ } = self;
        let count = data.len();
        (data, count)
    }
}

impl<T: Copy> FlatBuffer<T> {
    /// Flatten a square grid and tag it with its element count.
    pub fn from_grid(g: &Vec<Vec<T>>) -> (fb: FlatBuffer<T>)
        requires
            is_square(g@, g@.len() as nat),
        ensures
            fb.spec_side() == g@.len(),
            fb.contents().len() == g@.len() * g@.len(),
            forall|i: int, j: int|
                0 <= i < g@.len() && 0 <= j < g@.len() ==> #[trigger] fb.cell(i, j) == g@[i]@[j],
    {
        let side = g.len();
        let data = flatten(g);
        FlatBuffer { data, side }
    }

    /// Read the cell at row `i`, column `j` through the row-major layout.
    pub fn at(&self, i: usize, j: usize) -> (v: T)
        requires
            i < self.spec_side(),
            j < self.spec_side(),
        ensures
            v == self.cell(i as int, j as int),
    {
        proof {
            use_type_invariant(&*self);
        }
        // Reading the length pins the element count into machine range, so
        // the row-major index below cannot overflow.
        let total = self.data.len();
        proof {
            lemma_row_major_bound(i as int, j as int, self.side as int, self.side as int);
            assert(i * self.side + j < total);
        }
        let idx = i * self.side + j;
        self.data[idx]
    }
}

} // verus!
