//! Decomposition of a closed interval into contiguous tiles of nearly equal
//! length, with the mappings between a global index and a pair of a local
//! offset and a tile number.

use vstd::prelude::*;
use vstd::arithmetic::div_mod::lemma_fundamental_div_mod;
use vstd::arithmetic::div_mod::lemma_fundamental_div_mod_converse;
use vstd::arithmetic::div_mod::lemma_mod_bound;
use crate::circular_index::CircularIndex;
use crate::circular_index::Interval;
use crate::error::IndexError;

verus! {

/// The length given to every tile but the last when `extent` points are cut
/// into `n` tiles: `extent / n`, rounded up.
pub open spec fn tile_width(extent: int, n: int) -> int {
    if extent % n == 0 {
        extent / n
    } else {
        extent / n + 1
    }
}

/// The length of tile `k` when `extent` points are cut into `n` tiles: the
/// common width, but for the last tile, which takes what the others leave.
pub open spec fn tile_length(extent: int, n: int, k: int) -> int {
    if k < n - 1 {
        tile_width(extent, n)
    } else {
        extent - tile_width(extent, n) * (n - 1)
    }
}

/// The sum of the entries of `s`.
pub open spec fn total(s: Seq<usize>) -> int
    decreases s.len(),
{
    if s.len() == 0 {
        0
    } else {
        total(s.drop_last()) + s.last()
    }
}

/// Why `[lower, upper]` cannot be cut into `n` tiles, if it cannot.
///
/// No tile may be empty: the cut is refused when the last tile would be left
/// without a point, which is the case, among others, whenever there are more
/// tiles than points.
pub open spec fn tiling_refusal(lower: int, upper: int, n: int) -> Option<IndexError> {
    let extent = upper - lower + 1;
    if n <= 0 {
        Some(IndexError::InvalidTileCount)
    } else if lower >= upper || extent > usize::MAX {
        Some(IndexError::InvalidRange)
    } else if extent / n == 0 || tile_length(extent, n, n - 1) <= 0 {
        Some(IndexError::EmptyTile)
    } else {
        None
    }
}

/// An interval cut into consecutive tiles: the model of a
/// [`TiledGridAccessor1d`].
pub struct Tiling {
    /// The interval that is cut.
    pub interval: Interval,
    /// The length of each tile, in tile order.
    pub lengths: Seq<usize>,
}

impl Tiling {
    /// The tiles are balanced and none of them is empty.
    pub open spec fn valid(self) -> bool {
        &&& self.interval.valid()
        &&& self.lengths.len() > 0
        &&& forall|k: int|
            0 <= k < self.lengths.len() ==> #[trigger] self.lengths[k] as int == tile_length(
                self.interval.extent(),
                self.lengths.len() as int,
                k,
            )
        &&& forall|k: int| 0 <= k < self.lengths.len() ==> #[trigger] self.lengths[k] > 0
    }

    /// The length of the first tile, by which global indices are divided.
    pub open spec fn width(self) -> int {
        self.lengths[0] as int
    }

    /// Whether `iloc` is an offset into tile `iint`.
    pub open spec fn holds(self, iloc: int, iint: int) -> bool {
        0 <= iint < self.lengths.len() && 0 <= iloc < self.lengths[iint]
    }

    /// The local offset and the tile number of the global index `iglob`,
    /// every tile being taken to have the first tile's length.
    pub open spec fn local_of(self, iglob: int) -> (int, int) {
        (iglob % self.width(), iglob / self.width())
    }

    /// The global index of the offset `iloc` into tile `iint`, every tile
    /// being taken to have the first tile's length.
    pub open spec fn global_of(self, iloc: int, iint: int) -> int {
        iint * self.width() + iloc
    }
}

/// A sequence of `m` equal entries sums to `m` times the entry.
proof fn lemma_total_of_equal_entries(s: Seq<usize>, w: int)
    requires
        forall|k: int| 0 <= k < s.len() ==> #[trigger] s[k] as int == w,
    ensures
        total(s) == w * s.len(),
    decreases s.len(),
{
    if s.len() > 0 {
        let front = s.drop_last();
        assert forall|k: int| 0 <= k < front.len() implies #[trigger] front[k] as int == w by {
            assert(front[k] == s[k]);
        }
        lemma_total_of_equal_entries(front, w);
        assert(w * front.len() + w == w * s.len()) by (nonlinear_arith)
            requires
                front.len() + 1 == s.len(),
        ;
    } else {
        assert(w * 0 == 0);
    }
}

/// When `n` divides `extent`, the last tile is as long as the others.
proof fn lemma_even_cut(extent: int, n: int)
    requires
        n > 0,
        extent % n == 0,
    ensures
        tile_length(extent, n, n - 1) == tile_width(extent, n),
{
    let q = extent / n;
    lemma_fundamental_div_mod(extent, n);
    assert(q * (n - 1) == n * q - q) by (nonlinear_arith);
}

/// The lengths of a valid tiling add up to the number of points of its
/// interval.
pub proof fn lemma_tiling_balance(t: Tiling)
    requires
        t.valid(),
    ensures
        total(t.lengths) == t.interval.extent(),
{
    let n = t.lengths.len() as int;
    let extent = t.interval.extent();
    let w = tile_width(extent, n);
    let front = t.lengths.drop_last();
    assert forall|k: int| 0 <= k < front.len() implies #[trigger] front[k] as int == w by {
        assert(front[k] == t.lengths[k]);
    }
    lemma_total_of_equal_entries(front, w);
    assert(t.lengths.last() as int == tile_length(extent, n, n - 1));
}

/// In a valid tiling the first tile has the common width, which is positive,
/// and no tile is longer.
pub proof fn lemma_tiling_width(t: Tiling)
    requires
        t.valid(),
    ensures
        t.width() == tile_width(t.interval.extent(), t.lengths.len() as int),
        t.width() > 0,
        forall|k: int| 0 <= k < t.lengths.len() ==> #[trigger] t.lengths[k] <= t.width(),
{
    let n = t.lengths.len() as int;
    let extent = t.interval.extent();
    let w = tile_width(extent, n);
    let q = extent / n;
    let r = extent % n;
    lemma_fundamental_div_mod(extent, n);
    lemma_mod_bound(extent, n);
    assert(t.lengths[0] > 0);
    assert(t.lengths[n - 1] > 0);
    if r == 0 {
        lemma_even_cut(extent, n);
    } else {
        assert(extent - w * (n - 1) <= w) by (nonlinear_arith)
            requires
                extent == n * q + r,
                w == q + 1,
                r < n,
        ;
    }
    assert(t.lengths[0] as int == w) by {
        if n == 1 {
            assert(w * (n - 1) == 0) by (nonlinear_arith)
                requires
                    n == 1,
            ;
            assert(extent == w) by (nonlinear_arith)
                requires
                    extent == n * q + r,
                    n == 1,
                    0 <= r < n,
                    w == q,
            ;
        }
    }
    assert forall|k: int| 0 <= k < t.lengths.len() implies #[trigger] t.lengths[k] <= t.width() by {
        assert(t.lengths[k] as int == tile_length(extent, n, k));
    }
}

/// A pair of a tile and an offset into it stands for one of the first
/// `extent` global indices.
pub proof fn lemma_global_of_bound(t: Tiling, iloc: int, iint: int)
    requires
        t.valid(),
        t.holds(iloc, iint),
    ensures
        0 <= t.global_of(iloc, iint) < t.interval.extent(),
{
    let n = t.lengths.len() as int;
    let extent = t.interval.extent();
    let w = t.width();
    lemma_tiling_width(t);
    assert(t.lengths[iint] as int == tile_length(extent, n, iint));
    assert(t.lengths[n - 1] as int == tile_length(extent, n, n - 1));
    assert(t.lengths[n - 1] > 0);
    if iint < n - 1 {
        assert(0 <= iint * w && iint * w + w <= w * (n - 1)) by (nonlinear_arith)
            requires
                0 <= iint < n - 1,
                w > 0,
        ;
    } else {
        assert(0 <= iint * w && iint * w == w * (n - 1)) by (nonlinear_arith)
            requires
                iint == n - 1,
                n >= 1,
                w > 0,
        ;
    }
}

/// Mapping an offset into a tile to its global index and back gives the
/// offset and the tile again.
pub proof fn lemma_local_global_local(t: Tiling, iloc: int, iint: int)
    requires
        t.valid(),
        t.holds(iloc, iint),
    ensures
        t.local_of(t.global_of(iloc, iint)) == (iloc, iint),
{
    lemma_tiling_width(t);
    assert(t.lengths[iint] <= t.width());
    lemma_fundamental_div_mod_converse(t.global_of(iloc, iint), t.width(), iint, iloc);
}

/// Mapping a global index to its offset and tile and back gives the index
/// again; the offset lies within the length of the tile exactly for the
/// first `extent` indices.
pub proof fn lemma_global_local_global(t: Tiling, iglob: int)
    requires
        t.valid(),
        0 <= iglob,
    ensures
        t.global_of(t.local_of(iglob).0, t.local_of(iglob).1) == iglob,
        t.holds(t.local_of(iglob).0, t.local_of(iglob).1) <==> iglob < t.interval.extent(),
{
    let n = t.lengths.len() as int;
    let extent = t.interval.extent();
    let w = t.width();
    let (iloc, iint) = t.local_of(iglob);
    lemma_tiling_width(t);
    lemma_fundamental_div_mod(iglob, w);
    lemma_mod_bound(iglob, w);
    assert(iint * w == w * iint) by (nonlinear_arith);
    assert(iint >= 0) by (nonlinear_arith)
        requires
            iglob == w * iint + iloc,
            0 <= iloc < w,
            0 <= iglob,
            w > 0,
    ;
    if t.holds(iloc, iint) {
        lemma_global_of_bound(t, iloc, iint);
    }
    if iglob < extent {
        assert(t.lengths[n - 1] as int == tile_length(extent, n, n - 1));
        assert(t.lengths[n - 1] <= w);
        assert(iint < n) by (nonlinear_arith)
            requires
                iglob == w * iint + iloc,
                0 <= iloc,
                iglob < extent,
                extent - w * (n - 1) <= w,
                w > 0,
        ;
        assert(t.lengths[iint] as int == tile_length(extent, n, iint));
        assert(iint == n - 1 ==> w * iint == w * (n - 1)) by (nonlinear_arith);
    }
}

/// A tiled grid accessor in one dimension: an interval cut into `n` tiles.
#[derive(Debug)]
pub struct TiledGridAccessor1d {
    cindex: CircularIndex,
    lengths: Vec<usize>,
}

impl View for TiledGridAccessor1d {
    type V = Tiling;

    closed spec fn view(&self) -> Tiling {
        Tiling { interval: self.cindex@, lengths: self.lengths@ }
    }
}

impl Clone for TiledGridAccessor1d {
    /// A copy with the same interval and the same tiles.
    fn clone(&self) -> (r: Self)
        ensures
            r@ == self@,
    {
        proof {
            use_type_invariant(self);
        }
        let lengths = self.lengths.clone();
        assert(lengths@ =~= self.lengths@);
        Self { cindex: self.cindex, lengths }
    }
}

impl TiledGridAccessor1d {
    /// The tiling is valid and the number of its points fits the index type.
    #[verifier::type_invariant]
    pub open spec fn wf(&self) -> bool {
        self@.valid() && self@.interval.extent() <= usize::MAX
    }

    /// Cuts `[lb, ub]` into `n` tiles. Every tile gets `(ub - lb + 1) / n`
    /// points, rounded up, and the last one what is left.
    ///
    /// Refused are, in this order: `n == 0` (`InvalidTileCount`); an interval
    /// of fewer than two points, or of more points than the index type can
    /// count (`InvalidRange`); a cut that would leave the last tile without a
    /// point, as every cut into more tiles than points does (`EmptyTile`).
    pub fn new(lb: usize, ub: usize, n: usize) -> (r: Result<Self, IndexError>)
        ensures
            match r {
                Ok(t) => {
                    &&& tiling_refusal(lb as int, ub as int, n as int) is None
                    &&& t@.interval == (Interval { lower: lb as int, upper: ub as int })
                    &&& t@.lengths.len() == n
                    &&& t.wf()
                    &&& total(t@.lengths) == ub - lb + 1
                },
                Err(e) => tiling_refusal(lb as int, ub as int, n as int) == Some(e),
            },
            n == 0 ==> r == Err::<Self, IndexError>(IndexError::InvalidTileCount),
            lb < ub && ub - lb + 1 < n ==> r == Err::<Self, IndexError>(IndexError::EmptyTile),
    {
        if n == 0 {
            return Err(IndexError::InvalidTileCount);
        }
        let cindex = match CircularIndex::new(lb, ub) {
            Ok(c) => c,
            Err(e) => {
                return Err(e);
            },
        };
        let delta = match (ub - lb).checked_add(1) {
            Some(d) => d,
            None => {
                return Err(IndexError::InvalidRange);
            },
        };
        let mut ntarget = delta / n;
        if ntarget == 0 {
            return Err(IndexError::EmptyTile);
        }
        proof {
            lemma_fundamental_div_mod(delta as int, n as int);
            lemma_mod_bound(delta as int, n as int);
            assert(n * ntarget == ntarget * n && n * ntarget >= n) by (nonlinear_arith)
                requires
                    ntarget >= 1,
            ;
        }
        let lengths = if ntarget * n == delta {
            proof {
                lemma_even_cut(delta as int, n as int);
            }
            vec![ntarget; n]
        } else {
            assert(ntarget < delta) by (nonlinear_arith)
                requires
                    n >= 2,
                    ntarget >= 1,
                    n * ntarget <= delta,
            ;
            ntarget = ntarget + 1;
            let full = match ntarget.checked_mul(n - 1) {
                Some(p) => p,
                None => {
                    return Err(IndexError::EmptyTile);
                },
            };
            if full >= delta {
                return Err(IndexError::EmptyTile);
            }
            let mut lengths = vec![ntarget; n];
            lengths.set(n - 1, delta - full);
            lengths
        };
        let t = Self { cindex, lengths };
        proof {
            lemma_tiling_balance(t@);
        }
        Ok(t)
    }

    /// The lengths of the tiles, in tile order.
    pub fn sublengths(&self) -> (r: &Vec<usize>)
        ensures
            r@ == self@.lengths,
            total(r@) == self@.interval.extent(),
    {
        proof {
            use_type_invariant(self);
            lemma_tiling_balance(self@);
        }
        &self.lengths
    }

    /// The local offset and the tile number of the global index `iglob`;
    /// an index outside the interval is refused (`OutOfBounds`).
    ///
    /// The index is divided by the first tile's length as it stands: it is
    /// not shifted by the lower bound, and the last tile is not treated apart
    /// where it is shorter than the others.
    pub fn g2l(&self, iglob: usize) -> (r: Result<(usize, usize), IndexError>)
        ensures
            r is Ok <==> self@.interval.contains(iglob as int),
            r matches Ok((iloc, iint)) ==> {
                &&& iloc == self@.local_of(iglob as int).0
                &&& iint == self@.local_of(iglob as int).1
            },
            r matches Err(e) ==> e == IndexError::OutOfBounds,
    {
        proof {
            use_type_invariant(self);
            lemma_tiling_width(self@);
        }
        let iglob = match self.cindex.at(iglob) {
            Ok(i) => i,
            Err(e) => {
                return Err(e);
            },
        };
        let width = self.lengths[0];
        Ok((iglob % width, iglob / width))
    }

    /// The global index of the offset `iloc` into tile `iint`; a tile that
    /// does not exist, or an offset beyond the tile's length, is refused
    /// (`LocalIndexOutOfRange`).
    ///
    /// Every tile before `iint` counts with the first tile's length, and the
    /// lower bound is not added.
    pub fn l2g(&self, iloc: usize, iint: usize) -> (r: Result<usize, IndexError>)
        ensures
            r is Ok <==> self@.holds(iloc as int, iint as int),
            r matches Ok(g) ==> g == self@.global_of(iloc as int, iint as int),
            r matches Err(e) ==> e == IndexError::LocalIndexOutOfRange,
    {
        proof {
            use_type_invariant(self);
        }
        if iint >= self.lengths.len() || iloc >= self.lengths[iint] {
            return Err(IndexError::LocalIndexOutOfRange);
        }
        proof {
            lemma_tiling_width(self@);
            lemma_global_of_bound(self@, iloc as int, iint as int);
            assert(0 <= iint * self@.width()) by (nonlinear_arith)
                requires
                    self@.width() > 0,
            ;
        }
        Ok(iint * self.lengths[0] + iloc)
    }
}

} // verus!
