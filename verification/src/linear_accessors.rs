//! Conversion between a flat index and cartesian coordinates on a
//! two-dimensional grid, in row-major and in column-major order.
//!
//! Nothing here checks a coordinate or a flat index against the grid: the
//! conversions are plain arithmetic, meant for the innermost loop of a
//! computation, and a caller who needs a check makes it beforehand.

use vstd::prelude::*;
use vstd::arithmetic::div_mod::lemma_fundamental_div_mod;
use vstd::arithmetic::div_mod::lemma_fundamental_div_mod_converse;
use vstd::arithmetic::div_mod::lemma_mod_bound;
use crate::error::IndexError;

verus! {

/// The extents of a two-dimensional grid: the model of a
/// [`LinearAccessor2d`].
pub struct Extents {
    /// The number of values of the first coordinate.
    pub ni: int,
    /// The number of values of the second coordinate.
    pub nj: int,
}

impl Extents {
    /// Both extents are positive.
    pub open spec fn valid(self) -> bool {
        self.ni > 0 && self.nj > 0
    }

    /// Whether `(i, j)` is a cell of the grid.
    pub open spec fn contains(self, i: int, j: int) -> bool {
        0 <= i < self.ni && 0 <= j < self.nj
    }

    /// The flat index of `(i, j)` when the second coordinate varies fastest.
    pub open spec fn row_major(self, i: int, j: int) -> int {
        j + self.nj * i
    }

    /// The flat index of `(i, j)` when the first coordinate varies fastest.
    pub open spec fn column_major(self, i: int, j: int) -> int {
        i + self.ni * j
    }

    /// The coordinates whose row-major flat index is `lin`.
    pub open spec fn row_major_coord(self, lin: int) -> (int, int) {
        (lin / self.nj, lin % self.nj)
    }

    /// The coordinates whose column-major flat index is `lin`.
    pub open spec fn column_major_coord(self, lin: int) -> (int, int) {
        (lin % self.ni, lin / self.ni)
    }
}

/// Flattening a cell in row-major order and unflattening the result gives
/// the cell again.
pub proof fn lemma_row_major_round_trip(e: Extents, i: int, j: int)
    requires
        e.valid(),
        e.contains(i, j),
    ensures
        e.row_major_coord(e.row_major(i, j)) == (i, j),
{
    assert(e.nj * i == i * e.nj) by (nonlinear_arith);
    lemma_fundamental_div_mod_converse(e.row_major(i, j), e.nj, i, j);
}

/// Flattening a cell in column-major order and unflattening the result gives
/// the cell again.
pub proof fn lemma_column_major_round_trip(e: Extents, i: int, j: int)
    requires
        e.valid(),
        e.contains(i, j),
    ensures
        e.column_major_coord(e.column_major(i, j)) == (i, j),
{
    assert(e.ni * j == j * e.ni) by (nonlinear_arith);
    lemma_fundamental_div_mod_converse(e.column_major(i, j), e.ni, j, i);
}

/// The flat indices of the cells of a grid are the numbers below `ni * nj`,
/// in either order.
pub proof fn lemma_flat_index_bound(e: Extents, i: int, j: int)
    requires
        e.valid(),
        e.contains(i, j),
    ensures
        0 <= e.row_major(i, j) < e.ni * e.nj,
        0 <= e.column_major(i, j) < e.ni * e.nj,
{
    assert(0 <= e.nj * i && e.nj * i + e.nj <= e.ni * e.nj) by (nonlinear_arith)
        requires
            0 <= i < e.ni,
            e.nj > 0,
    ;
    assert(0 <= e.ni * j && e.ni * j + e.ni <= e.ni * e.nj) by (nonlinear_arith)
        requires
            0 <= j < e.nj,
            e.ni > 0,
    ;
}

/// Unflattening a row-major index and flattening the result gives the index
/// again; the coordinates name a cell of the grid exactly for the indices
/// below `ni * nj`.
pub proof fn lemma_row_major_coord_round_trip(e: Extents, lin: int)
    requires
        e.valid(),
        0 <= lin,
    ensures
        e.row_major(e.row_major_coord(lin).0, e.row_major_coord(lin).1) == lin,
        e.contains(e.row_major_coord(lin).0, e.row_major_coord(lin).1) <==> lin < e.ni * e.nj,
{
    let (i, j) = e.row_major_coord(lin);
    lemma_fundamental_div_mod(lin, e.nj);
    lemma_mod_bound(lin, e.nj);
    assert(0 <= i && (i < e.ni <==> lin < e.ni * e.nj)) by (nonlinear_arith)
        requires
            lin == e.nj * i + j,
            0 <= j < e.nj,
            0 <= lin,
            e.ni > 0,
    ;
}

/// Unflattening a column-major index and flattening the result gives the
/// index again; the coordinates name a cell of the grid exactly for the
/// indices below `ni * nj`.
pub proof fn lemma_column_major_coord_round_trip(e: Extents, lin: int)
    requires
        e.valid(),
        0 <= lin,
    ensures
        e.column_major(e.column_major_coord(lin).0, e.column_major_coord(lin).1) == lin,
        e.contains(e.column_major_coord(lin).0, e.column_major_coord(lin).1) <==> lin < e.ni
            * e.nj,
{
    let (i, j) = e.column_major_coord(lin);
    lemma_fundamental_div_mod(lin, e.ni);
    lemma_mod_bound(lin, e.ni);
    assert(0 <= j && (j < e.nj <==> lin < e.ni * e.nj)) by (nonlinear_arith)
        requires
            lin == e.ni * j + i,
            0 <= i < e.ni,
            0 <= lin,
            e.nj > 0,
    ;
}

/// The remainder of a natural number is no larger than the number, and
/// taking it off before dividing does not change the quotient.
proof fn lemma_div_without_remainder(x: int, d: int)
    requires
        0 <= x,
        0 < d,
    ensures
        0 <= x % d <= x,
        (x - x % d) / d == x / d,
{
    let q = x / d;
    let r = x % d;
    lemma_fundamental_div_mod(x, d);
    lemma_mod_bound(x, d);
    assert(d * q == q * d && 0 <= d * q) by (nonlinear_arith)
        requires
            x == d * q + r,
            0 <= x,
            0 <= r < d,
    ;
    lemma_fundamental_div_mod_converse(x - r, d, q, 0);
}

/// The dimensions of a cartesian grid whose cells are numbered in a line.
#[derive(Clone, Copy, Debug)]
pub struct LinearAccessor2d {
    ni: usize,
    nj: usize,
}

impl View for LinearAccessor2d {
    type V = Extents;

    closed spec fn view(&self) -> Extents {
        Extents { ni: self.ni as int, nj: self.nj as int }
    }
}

impl LinearAccessor2d {
    /// Every accessor has positive extents.
    #[verifier::type_invariant]
    pub open spec fn wf(&self) -> bool {
        self@.valid()
    }

    /// Creates the accessor of a grid of `ni` by `nj` cells; an extent of
    /// zero is refused.
    pub fn new(ni: usize, nj: usize) -> (r: Result<Self, IndexError>)
        ensures
            r is Ok <==> ni > 0 && nj > 0,
            r matches Ok(a) ==> a@ == (Extents { ni: ni as int, nj: nj as int }),
            r matches Err(e) ==> e == IndexError::InvalidDimensions,
    {
        if ni == 0 || nj == 0 {
            return Err(IndexError::InvalidDimensions);
        }
        Ok(Self { ni, nj })
    }

    /// The row-major flat index of the coordinates `co[0]` and `co[1]`, which
    /// are not checked against the grid.
    pub fn cart2lin_rm(&self, co: &[usize]) -> (r: usize)
        requires
            co@.len() >= 2,
            self@.row_major(co@[0] as int, co@[1] as int) <= usize::MAX,
        ensures
            r == self@.row_major(co@[0] as int, co@[1] as int),
    {
        co[1] + self.nj * co[0]
    }

    /// The column-major flat index of the coordinates `co[0]` and `co[1]`,
    /// which are not checked against the grid.
    pub fn cart2lin_cm(&self, co: &[usize]) -> (r: usize)
        requires
            co@.len() >= 2,
            self@.column_major(co@[0] as int, co@[1] as int) <= usize::MAX,
        ensures
            r == self@.column_major(co@[0] as int, co@[1] as int),
    {
        co[0] + self.ni * co[1]
    }

    /// The coordinates of the row-major flat index `lin`, which is not
    /// checked against the grid.
    pub fn lin2cart_rm(&self, lin: usize) -> (r: [usize; 2])
        ensures
            r@[0] == self@.row_major_coord(lin as int).0,
            r@[1] == self@.row_major_coord(lin as int).1,
    {
        proof {
            use_type_invariant(self);
            lemma_div_without_remainder(lin as int, self.nj as int);
        }
        let j = lin % self.nj;
        [(lin - j) / self.nj, j]
    }

    /// The coordinates of the column-major flat index `lin`, which is not
    /// checked against the grid.
    pub fn lin2cart_cm(&self, lin: usize) -> (r: [usize; 2])
        ensures
            r@[0] == self@.column_major_coord(lin as int).0,
            r@[1] == self@.column_major_coord(lin as int).1,
    {
        proof {
            use_type_invariant(self);
            lemma_div_without_remainder(lin as int, self.ni as int);
        }
        let i = lin % self.ni;
        [i, (lin - i) / self.ni]
    }
}

} // verus!
