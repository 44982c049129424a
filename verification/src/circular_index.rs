//! Wraparound stepping on a closed integer interval.

use vstd::prelude::*;
use crate::error::IndexError;

verus! {

/// The closed integer interval `[lower, upper]`: the model of a
/// [`CircularIndex`].
pub struct Interval {
    pub lower: int,
    pub upper: int,
}

impl Interval {
    /// An interval that can be stepped around holds at least two points.
    pub open spec fn valid(self) -> bool {
        self.lower < self.upper
    }

    /// The number of points of the interval.
    pub open spec fn extent(self) -> int {
        self.upper - self.lower + 1
    }

    /// Whether `i` is one of the interval's points.
    pub open spec fn contains(self, i: int) -> bool {
        self.lower <= i <= self.upper
    }

    /// The point after `i`, the upper bound being followed by the lower one.
    pub open spec fn next(self, i: int) -> int {
        if i < self.upper {
            i + 1
        } else {
            self.lower
        }
    }

    /// The point before `i`, the lower bound being preceded by the upper one.
    pub open spec fn previous(self, i: int) -> int {
        if i > self.lower {
            i - 1
        } else {
            self.upper
        }
    }
}

/// Stepping forward and stepping backward undo each other, and neither
/// leaves the interval.
pub proof fn lemma_steps_are_inverse(iv: Interval, i: int)
    requires
        iv.valid(),
        iv.contains(i),
    ensures
        iv.next(iv.previous(i)) == i,
        iv.previous(iv.next(i)) == i,
        iv.contains(iv.next(i)),
        iv.contains(iv.previous(i)),
{
}

/// The step forward from the upper bound arrives at the lower bound, and the
/// step backward from the lower bound at the upper bound.
pub proof fn lemma_steps_wrap_around(iv: Interval)
    requires
        iv.valid(),
    ensures
        iv.next(iv.upper) == iv.lower,
        iv.previous(iv.lower) == iv.upper,
{
}

/// A pair of intervals, one for each coordinate of a two-dimensional grid:
/// the model of a [`Circular2dIndex`].
pub struct Torus {
    /// The interval of the first coordinate.
    pub i: Interval,
    /// The interval of the second coordinate.
    pub j: Interval,
}

impl Torus {
    /// Both intervals hold at least two points.
    pub open spec fn valid(self) -> bool {
        self.i.valid() && self.j.valid()
    }

    /// Whether `(i, j)` is a point of the grid.
    pub open spec fn contains(self, i: int, j: int) -> bool {
        self.i.contains(i) && self.j.contains(j)
    }
}

/// A circular index over the interval between a lower and an upper bound.
#[derive(Clone, Copy, Debug)]
pub struct CircularIndex {
    lower_bound: usize,
    upper_bound: usize,
}

impl View for CircularIndex {
    type V = Interval;

    closed spec fn view(&self) -> Interval {
        Interval { lower: self.lower_bound as int, upper: self.upper_bound as int }
    }
}

impl CircularIndex {
    /// Every circular index spans at least two points.
    #[verifier::type_invariant]
    pub open spec fn wf(&self) -> bool {
        self@.valid()
    }

    /// Creates the circular index over `[lb, ub]`; an interval of fewer than
    /// two points is refused.
    pub fn new(lb: usize, ub: usize) -> (r: Result<Self, IndexError>)
        ensures
            r is Ok <==> lb < ub,
            r matches Ok(c) ==> c@ == (Interval { lower: lb as int, upper: ub as int }),
            r matches Err(e) ==> e == IndexError::InvalidRange,
    {
        if lb >= ub {
            return Err(IndexError::InvalidRange);
        }
        Ok(Self { lower_bound: lb, upper_bound: ub })
    }

    /// Hands `i` back if it is a point of the interval, and refuses it
    /// otherwise.
    pub fn at(&self, i: usize) -> (r: Result<usize, IndexError>)
        ensures
            r is Ok <==> self@.contains(i as int),
            r matches Ok(v) ==> v == i,
            r matches Err(e) ==> e == IndexError::OutOfBounds,
    {
        if i >= self.lower_bound && i <= self.upper_bound {
            Ok(i)
        } else {
            Err(IndexError::OutOfBounds)
        }
    }

    /// The index after `i`: `i + 1`, or the lower bound once the upper one
    /// is reached. `i` is a point of the interval: [`CircularIndex::at`]
    /// tells whether it is.
    pub fn next(&self, i: usize) -> (r: usize)
        requires
            self@.contains(i as int),
        ensures
            r == self@.next(i as int),
            self@.contains(r as int),
    {
        proof {
            use_type_invariant(self);
        }
        if i < self.upper_bound {
            i + 1
        } else {
            self.lower_bound
        }
    }

    /// The index before `i`: `i - 1`, or the upper bound once the lower one
    /// is reached. `i` is a point of the interval: [`CircularIndex::at`]
    /// tells whether it is.
    pub fn previous(&self, i: usize) -> (r: usize)
        requires
            self@.contains(i as int),
        ensures
            r == self@.previous(i as int),
            self@.contains(r as int),
    {
        proof {
            use_type_invariant(self);
        }
        if i > self.lower_bound {
            i - 1
        } else {
            self.upper_bound
        }
    }
}

/// The two-dimensional counterpart of [`CircularIndex`]: one circular index
/// for each coordinate, stepped independently of the other.
#[derive(Clone, Copy, Debug)]
pub struct Circular2dIndex {
    i_index: CircularIndex,
    j_index: CircularIndex,
}

impl View for Circular2dIndex {
    type V = Torus;

    closed spec fn view(&self) -> Torus {
        Torus { i: self.i_index@, j: self.j_index@ }
    }
}

impl Circular2dIndex {
    /// Both coordinates span at least two points.
    #[verifier::type_invariant]
    pub open spec fn wf(&self) -> bool {
        self@.valid()
    }

    /// Creates the circular index over `[lb_i, ub_i]` for the first
    /// coordinate and `[lb_j, ub_j]` for the second; an interval of fewer
    /// than two points is refused.
    pub fn new(lb_i: usize, ub_i: usize, lb_j: usize, ub_j: usize) -> (r: Result<Self, IndexError>)
        ensures
            r is Ok <==> lb_i < ub_i && lb_j < ub_j,
            r matches Ok(c) ==> c@ == (Torus {
                i: Interval { lower: lb_i as int, upper: ub_i as int },
                j: Interval { lower: lb_j as int, upper: ub_j as int },
            }),
            r matches Err(e) ==> e == IndexError::InvalidRange,
    {
        let i_index = match CircularIndex::new(lb_i, ub_i) {
            Ok(c) => c,
            Err(e) => {
                return Err(e);
            },
        };
        let j_index = match CircularIndex::new(lb_j, ub_j) {
            Ok(c) => c,
            Err(e) => {
                return Err(e);
            },
        };
        Ok(Self { i_index, j_index })
    }

    /// Hands `(i, j)` back if it is a point of the grid, and refuses it
    /// otherwise.
    pub fn at(&self, i: usize, j: usize) -> (r: Result<(usize, usize), IndexError>)
        ensures
            r is Ok <==> self@.contains(i as int, j as int),
            r matches Ok(p) ==> p == (i, j),
            r matches Err(e) ==> e == IndexError::OutOfBounds,
    {
        let i = match self.i_index.at(i) {
            Ok(v) => v,
            Err(e) => {
                return Err(e);
            },
        };
        let j = match self.j_index.at(j) {
            Ok(v) => v,
            Err(e) => {
                return Err(e);
            },
        };
        Ok((i, j))
    }

    /// Steps the first coordinate, a point of its interval, forward, and
    /// hands the second one back if it lies in its interval (`OutOfBounds`
    /// if it does not).
    pub fn next_i(&self, i: usize, j: usize) -> (r: Result<(usize, usize), IndexError>)
        requires
            self@.i.contains(i as int),
        ensures
            r is Ok <==> self@.j.contains(j as int),
            r matches Ok(p) ==> p.0 == self@.i.next(i as int) && p.1 == j,
            r matches Err(e) ==> e == IndexError::OutOfBounds,
    {
        let j = match self.j_index.at(j) {
            Ok(v) => v,
            Err(e) => {
                return Err(e);
            },
        };
        Ok((self.i_index.next(i), j))
    }

    /// Steps the first coordinate, a point of its interval, backward, and
    /// hands the second one back if it lies in its interval (`OutOfBounds`
    /// if it does not).
    pub fn previous_i(&self, i: usize, j: usize) -> (r: Result<(usize, usize), IndexError>)
        requires
            self@.i.contains(i as int),
        ensures
            r is Ok <==> self@.j.contains(j as int),
            r matches Ok(p) ==> p.0 == self@.i.previous(i as int) && p.1 == j,
            r matches Err(e) ==> e == IndexError::OutOfBounds,
    {
        let j = match self.j_index.at(j) {
            Ok(v) => v,
            Err(e) => {
                return Err(e);
            },
        };
        Ok((self.i_index.previous(i), j))
    }

    /// Steps the second coordinate, a point of its interval, forward, and
    /// hands the first one back if it lies in its interval (`OutOfBounds` if
    /// it does not).
    pub fn next_j(&self, i: usize, j: usize) -> (r: Result<(usize, usize), IndexError>)
        requires
            self@.j.contains(j as int),
        ensures
            r is Ok <==> self@.i.contains(i as int),
            r matches Ok(p) ==> p.0 == i && p.1 == self@.j.next(j as int),
            r matches Err(e) ==> e == IndexError::OutOfBounds,
    {
        let i = match self.i_index.at(i) {
            Ok(v) => v,
            Err(e) => {
                return Err(e);
            },
        };
        Ok((i, self.j_index.next(j)))
    }

    /// Steps the second coordinate, a point of its interval, backward, and
    /// hands the first one back if it lies in its interval (`OutOfBounds` if
    /// it does not).
    pub fn previous_j(&self, i: usize, j: usize) -> (r: Result<(usize, usize), IndexError>)
        requires
            self@.j.contains(j as int),
        ensures
            r is Ok <==> self@.i.contains(i as int),
            r matches Ok(p) ==> p.0 == i && p.1 == self@.j.previous(j as int),
            r matches Err(e) ==> e == IndexError::OutOfBounds,
    {
        let i = match self.i_index.at(i) {
            Ok(v) => v,
            Err(e) => {
                return Err(e);
            },
        };
        Ok((i, self.j_index.previous(j)))
    }
}

} // verus!
