//! One ray walk over the grid, taken one grid-line crossing at a time.
//!
//! The caller decides which grid line the ray crosses next; `advance` moves
//! the walk across it and reports what lies on the other side.

use vstd::prelude::*;
use crate::grid::RayCastEngine;

verus! {

/// A grid axis. Crossing a vertical grid line moves a walk along `X`,
/// crossing a horizontal one moves it along `Y`.
#[derive(Clone, Copy, Debug, PartialEq, Eq, Structural)]
pub enum Axis {
    X,
    Y,
}

/// The sense in which a ray travels along one axis.
#[derive(Clone, Copy, Debug, PartialEq, Eq, Structural)]
pub enum Facing {
    /// Toward smaller coordinates: each crossing lowers the coordinate by one.
    Negative,
    /// Toward larger coordinates: each crossing raises the coordinate by one.
    Positive,
}

/// How far a walk has come.
#[derive(Clone, Copy, Debug, PartialEq, Eq, Structural)]
pub enum Status {
    /// No wall met yet; the walk can go on.
    Marching,
    /// The walk entered an occupied cell holding this value.
    Hit(u32),
    /// The walk stepped off the grid.
    Escaped,
}

/// The state of one ray walk.
#[derive(Clone, Copy, Debug, PartialEq, Eq)]
pub struct Walk {
    /// The cell the walk stands on. A walk that escaped rests on the last
    /// cell it stood on before leaving.
    pub cell: (i64, i64),
    /// Direction of travel along `X` and along `Y`.
    pub facing: (Facing, Facing),
    /// Whether the walk is still going, and how it ended if not.
    pub status: Status,
    /// Whether the latest crossing was of a vertical grid line, that is, a
    /// move along `X`. `false` before the first crossing.
    pub collided_horizontal: bool,
}

impl Facing {
    /// The change of a coordinate at one crossing: `-1` or `1`.
    pub open spec fn delta(self) -> int {
        match self {
            Facing::Negative => -1,
            Facing::Positive => 1,
        }
    }

    /// The coordinate next to `c` in this sense, or `None` where it does not
    /// fit in an `i64`.
    pub fn shift(self, c: i64) -> (next: Option<i64>)
        ensures
            next == if i64::MIN <= c + self.delta() <= i64::MAX {
                Some((c + self.delta()) as i64)
            } else {
                None
            },
    {
        match self {
            Facing::Negative => c.checked_sub(1),
            Facing::Positive => c.checked_add(1),
        }
    }
}

impl Walk {
    /// A fresh walk standing on `cell`. The starting cell itself is never
    /// examined: it may be a wall or lie off the grid.
    pub fn begin(cell: (i64, i64), facing: (Facing, Facing)) -> (walk: Walk)
        ensures
            walk == (Walk { cell, facing, status: Status::Marching, collided_horizontal: false }),
    {
        Walk { cell, facing, status: Status::Marching, collided_horizontal: false }
    }

    /// The cell on the far side of the next grid line along `axis`.
    pub open spec fn target(self, axis: Axis) -> (int, int) {
        match axis {
            Axis::X => (self.cell.0 + self.facing.0.delta(), self.cell.1 as int),
            Axis::Y => (self.cell.0 as int, self.cell.1 + self.facing.1.delta()),
        }
    }

    /// The value of the wall that ended the walk, if one did.
    pub open spec fn spec_hit_val(self) -> Option<u32> {
        match self.status {
            Status::Hit(v) => Some(v),
            _ => None,
        }
    }

    /// The value of the wall that ended the walk, if one did.
    #[verifier::when_used_as_spec(spec_hit_val)]
    pub fn hit_val(self) -> (value: Option<u32>)
        ensures
            value == self.spec_hit_val(),
    {
        match self.status {
            Status::Hit(v) => Some(v),
            _ => None,
        }
    }

    /// Whether the walk can still go on.
    pub fn is_marching(self) -> (going: bool)
        ensures
            going == (self.status is Marching),
    {
        match self.status {
            Status::Marching => true,
            _ => false,
        }
    }
}

impl RayCastEngine {
    /// The walk after one crossing along `axis`.
    ///
    /// A marching walk looks at the cell across the grid line. Off the grid it
    /// escapes and stays where it was; on the grid it enters the cell, and is
    /// over with a hit if the cell is occupied. Either way the crossing is
    /// recorded. A walk that is over does not move.
    pub open spec fn step(&self, walk: Walk, axis: Axis) -> Walk {
        if walk.status is Marching {
            let t = walk.target(axis);
            match self.lookup(t.0, t.1) {
                Some(v) => Walk {
                    cell: (t.0 as i64, t.1 as i64),
                    facing: walk.facing,
                    status: if v == 0 {
                        Status::Marching
                    } else {
                        Status::Hit(v)
                    },
                    collided_horizontal: axis is X,
                },
                None => Walk {
                    cell: walk.cell,
                    facing: walk.facing,
                    status: Status::Escaped,
                    collided_horizontal: axis is X,
                },
            }
        } else {
            walk
        }
    }

    /// Takes `walk` across the next grid line along `axis`.
    pub fn advance(&self, walk: Walk, axis: Axis) -> (next: Walk)
        requires
            self.wf(),
        ensures
            next == self.step(walk, axis),
    {
        if !walk.is_marching() {
            return walk;
        }
        let crossed_vertical = match axis {
            Axis::X => true,
            Axis::Y => false,
        };
        let reached: Option<(i64, i64)> = match axis {
            Axis::X => match walk.facing.0.shift(walk.cell.0) {
                Some(x) => Some((x, walk.cell.1)),
                None => None,
            },
            Axis::Y => match walk.facing.1.shift(walk.cell.1) {
                Some(y) => Some((walk.cell.0, y)),
                None => None,
            },
        };
        let found: Option<u32> = match reached {
            Some(cell) => self.cell_at(cell.0, cell.1),
            None => None,
        };
        match (reached, found) {
            (Some(cell), Some(v)) => Walk {
                cell,
                facing: walk.facing,
                status: if v == 0 {
                    Status::Marching
                } else {
                    Status::Hit(v)
                },
                collided_horizontal: crossed_vertical,
            },
            _ => Walk {
                cell: walk.cell,
                facing: walk.facing,
                status: Status::Escaped,
                collided_horizontal: crossed_vertical,
            },
        }
    }
}

} // verus!
