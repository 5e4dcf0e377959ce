//! Whole walks: a walk taken through a sequence of grid-line crossings, and
//! what holds of it whatever the sequence is.

use vstd::prelude::*;
use crate::grid::RayCastEngine;
use crate::walk::{Axis, Facing, Status, Walk};

verus! {

/// How many of the crossings in `axes` are along `axis`.
pub open spec fn crossings(axes: Seq<Axis>, axis: Axis) -> nat
    decreases axes.len(),
{
    if axes.len() == 0 {
        0
    } else {
        crossings(axes.drop_last(), axis) + if axes.last() == axis {
            1nat
        } else {
            0nat
        }
    }
}

impl Facing {
    /// The coordinate reached from `c` after `count` crossings in this sense.
    pub open spec fn travel(self, c: int, count: nat) -> int {
        match self {
            Facing::Negative => c - count,
            Facing::Positive => c + count,
        }
    }
}

impl Walk {
    /// The cell that the crossings `axes` lead to from where the walk stands,
    /// on an unbounded plane with no walls.
    pub open spec fn cell_after(self, axes: Seq<Axis>) -> (int, int) {
        (
            self.facing.0.travel(self.cell.0 as int, crossings(axes, Axis::X)),
            self.facing.1.travel(self.cell.1 as int, crossings(axes, Axis::Y)),
        )
    }
}

impl RayCastEngine {
    /// The walk after the crossings `axes`, taken in order.
    pub open spec fn run(&self, walk: Walk, axes: Seq<Axis>) -> Walk
        decreases axes.len(),
    {
        if axes.len() == 0 {
            walk
        } else {
            self.step(self.run(walk, axes.drop_last()), axes.last())
        }
    }

    /// Whether the cell that the first `k` crossings of `axes` lead to is an
    /// open cell of the grid.
    pub open spec fn passable(&self, walk: Walk, axes: Seq<Axis>, k: int) -> bool {
        let c = walk.cell_after(axes.take(k));
        self.lookup(c.0, c.1) == Some(0u32)
    }

    /// Whether the cell that the first `k` crossings of `axes` lead to lies on
    /// the grid.
    pub open spec fn on_grid(&self, walk: Walk, axes: Seq<Axis>, k: int) -> bool {
        let c = walk.cell_after(axes.take(k));
        self.in_bounds(c.0, c.1)
    }

    /// Whether each of the first `n` crossings of `axes` leads to an open
    /// cell of the grid.
    pub open spec fn clear(&self, walk: Walk, axes: Seq<Axis>, n: int) -> bool {
        forall|k: int| 1 <= k <= n ==> #[trigger] self.passable(walk, axes, k)
    }

    /// Where a marching `walk` ends when crossing number `k` of `axes` is the
    /// first to lead into a wall or off the grid.
    pub open spec fn stopped(&self, walk: Walk, axes: Seq<Axis>, k: int) -> Walk {
        let from = walk.cell_after(axes.take(k - 1));
        let to = walk.cell_after(axes.take(k));
        match self.lookup(to.0, to.1) {
            Some(v) => Walk {
                cell: (to.0 as i64, to.1 as i64),
                facing: walk.facing,
                status: Status::Hit(v),
                collided_horizontal: axes[k - 1] is X,
            },
            None => Walk {
                cell: (from.0 as i64, from.1 as i64),
                facing: walk.facing,
                status: Status::Escaped,
                collided_horizontal: axes[k - 1] is X,
            },
        }
    }

    /// Takes `walk` across each grid line of `axes` in turn.
    pub fn follow(&self, walk: Walk, axes: &[Axis]) -> (end: Walk)
        requires
            self.wf(),
        ensures
            end == self.run(walk, axes@),
    {
        let mut current = walk;
        let mut i: usize = 0;
        while i < axes.len()
            invariant
                self.wf(),
                i <= axes@.len(),
                current == self.run(walk, axes@.take(i as int)),
            decreases axes@.len() - i,
        {
            proof {
                assert(axes@.take(i + 1).drop_last() =~= axes@.take(i as int));
            }
            current = self.advance(current, axes[i]);
            i += 1;
        }
        proof {
            assert(axes@.take(i as int) =~= axes@);
        }
        current
    }
}

} // verus!
