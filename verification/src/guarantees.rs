//! What holds of every walk, whichever grid lines the ray crosses.

use vstd::prelude::*;
use crate::grid::RayCastEngine;
use crate::path::crossings;
use crate::walk::{Axis, Status, Walk};

verus! {

/// Every crossing is along `X` or along `Y`.
pub proof fn lemma_crossings_total(axes: Seq<Axis>)
    ensures
        crossings(axes, Axis::X) + crossings(axes, Axis::Y) == axes.len(),
    decreases axes.len(),
{
    if axes.len() > 0 {
        lemma_crossings_total(axes.drop_last());
    }
}

/// A longer prefix of `axes` holds at least as many crossings along `axis`.
pub proof fn lemma_crossings_monotone(axes: Seq<Axis>, axis: Axis, i: int, j: int)
    requires
        0 <= i <= j <= axes.len(),
    ensures
        crossings(axes.take(i), axis) <= crossings(axes.take(j), axis),
    decreases j - i,
{
    if i < j {
        lemma_crossings_monotone(axes, axis, i, j - 1);
        assert(axes.take(j).drop_last() =~= axes.take(j - 1));
    }
}

/// The crossings before the last one are the same in `axes` and in `axes`
/// without its last crossing.
pub proof fn lemma_prefix_of_drop_last(axes: Seq<Axis>, k: int)
    requires
        0 <= k < axes.len(),
    ensures
        axes.drop_last().take(k) == axes.take(k),
{
}

impl RayCastEngine {
    /// A walk that is over stays as it is.
    pub proof fn lemma_run_of_finished(&self, walk: Walk, axes: Seq<Axis>)
        requires
            !(walk.status is Marching),
        ensures
            self.run(walk, axes) == walk,
        decreases axes.len(),
    {
        if axes.len() > 0 {
            self.lemma_run_of_finished(walk, axes.drop_last());
        }
    }

    /// Whether the first `n` crossings all lead to open cells does not depend
    /// on what follows them.
    pub proof fn lemma_clear_of_drop_last(&self, walk: Walk, axes: Seq<Axis>, n: int)
        requires
            0 <= n < axes.len(),
        ensures
            self.clear(walk, axes, n) == self.clear(walk, axes.drop_last(), n),
    {
        let front = axes.drop_last();
        assert forall|k: int| 1 <= k <= n implies self.passable(walk, axes, k) == self.passable(
            walk,
            front,
            k,
        ) by {
            lemma_prefix_of_drop_last(axes, k);
        }
    }

    /// A walk is still marching after `axes` exactly when every crossing led
    /// to an open cell of the grid, and then it stands where the crossings
    /// lead: it entered each cell on the way and skipped none.
    pub proof fn lemma_marching_iff_clear(&self, walk: Walk, axes: Seq<Axis>)
        requires
            self.wf(),
            walk.status is Marching,
        ensures
            self.run(walk, axes).status is Marching <==> self.clear(walk, axes, axes.len() as int),
            self.run(walk, axes).status is Marching ==> {
                let end = self.run(walk, axes);
                &&& end.cell.0 == walk.cell_after(axes).0
                &&& end.cell.1 == walk.cell_after(axes).1
                &&& end.facing == walk.facing
                &&& end.collided_horizontal == if axes.len() == 0 {
                    walk.collided_horizontal
                } else {
                    axes.last() is X
                }
            },
        decreases axes.len(),
    {
        let n = axes.len() as int;
        if n > 0 {
            let front = axes.drop_last();
            self.lemma_marching_iff_clear(walk, front);
            self.lemma_clear_of_drop_last(walk, axes, n - 1);
            assert(axes.take(n) =~= axes);
            if self.run(walk, front).status is Marching {
                if self.clear(walk, axes, n) {
                    assert(self.passable(walk, axes, n));
                }
            } else if self.clear(walk, axes, n) {
                assert forall|k: int| 1 <= k <= n - 1 implies #[trigger] self.passable(
                    walk,
                    axes,
                    k,
                ) by {}
            }
        }
    }

    /// The walk ends at the first crossing that leads into a wall or off the
    /// grid: with a hit on that wall's value, standing in the wall's cell, or
    /// escaped, standing on the last cell before the edge. Later crossings
    /// change nothing.
    pub proof fn lemma_stops_at_first_obstacle(&self, walk: Walk, axes: Seq<Axis>, k: int)
        requires
            self.wf(),
            walk.status is Marching,
            1 <= k <= axes.len(),
            self.clear(walk, axes, k - 1),
            !self.passable(walk, axes, k),
        ensures
            self.run(walk, axes) == self.stopped(walk, axes, k),
            !(self.run(walk, axes).status is Marching),
            self.run(walk, axes).status matches Status::Hit(v) ==> v != 0,
        decreases axes.len(),
    {
        let n = axes.len() as int;
        let front = axes.drop_last();
        if k == n {
            self.lemma_marching_iff_clear(walk, front);
            self.lemma_clear_of_drop_last(walk, axes, n - 1);
            assert(axes.take(n) =~= axes);
        } else {
            self.lemma_clear_of_drop_last(walk, axes, k - 1);
            lemma_prefix_of_drop_last(axes, k);
            lemma_prefix_of_drop_last(axes, k - 1);
            self.lemma_stops_at_first_obstacle(walk, front, k);
        }
    }

    /// A hit names a wall: the walk stands in a cell of the grid that holds
    /// the reported value, and that value is not zero.
    pub proof fn lemma_hit_is_wall(&self, walk: Walk, axes: Seq<Axis>)
        requires
            self.wf(),
            walk.status is Marching,
        ensures
            self.run(walk, axes).status matches Status::Hit(v) ==> v != 0 && self.lookup(
                self.run(walk, axes).cell.0 as int,
                self.run(walk, axes).cell.1 as int,
            ) == Some(v),
        decreases axes.len(),
    {
        if axes.len() > 0 {
            self.lemma_hit_is_wall(walk, axes.drop_last());
        }
    }

    /// On a grid without walls no walk ever reports a hit.
    pub proof fn lemma_open_grid_never_hits(&self, walk: Walk, axes: Seq<Axis>)
        requires
            self.wf(),
            self.all_open(),
            walk.status is Marching,
        ensures
            !(self.run(walk, axes).status is Hit),
    {
        self.lemma_hit_is_wall(walk, axes);
    }

    /// On a grid without walls a walk goes as far as the grid does: it
    /// escapes at the first crossing that leads off the grid, resting on the
    /// last cell before the edge.
    pub proof fn lemma_open_grid_ends_at_the_edge(&self, walk: Walk, axes: Seq<Axis>, k: int)
        requires
            self.wf(),
            self.all_open(),
            walk.status is Marching,
            1 <= k <= axes.len(),
            forall|j: int| 1 <= j < k ==> #[trigger] self.on_grid(walk, axes, j),
            !self.on_grid(walk, axes, k),
        ensures
            self.run(walk, axes) == (Walk {
                cell: (
                    walk.cell_after(axes.take(k - 1)).0 as i64,
                    walk.cell_after(axes.take(k - 1)).1 as i64,
                ),
                facing: walk.facing,
                status: Status::Escaped,
                collided_horizontal: axes[k - 1] is X,
            }),
    {
        assert forall|j: int| 1 <= j <= k - 1 implies #[trigger] self.passable(walk, axes, j) by {
            assert(self.on_grid(walk, axes, j));
        }
        self.lemma_stops_at_first_obstacle(walk, axes, k);
    }

    /// Every walk is over within `width + height` crossings, wherever it
    /// starts and whichever grid lines it crosses.
    pub proof fn lemma_walk_is_bounded(&self, walk: Walk, axes: Seq<Axis>)
        requires
            self.wf(),
            walk.status is Marching,
            axes.len() >= 1,
            axes.len() >= self.width() + self.height(),
        ensures
            !(self.run(walk, axes).status is Marching),
    {
        let n = axes.len() as int;
        self.lemma_marching_iff_clear(walk, axes);
        if self.run(walk, axes).status is Marching {
            assert(self.passable(walk, axes, 1));
            assert(self.passable(walk, axes, n));
            assert(axes.take(n) =~= axes);
            lemma_crossings_total(axes);
            lemma_crossings_total(axes.take(1));
        }
    }

    /// A walk never stands on the same cell twice: the cells that two
    /// prefixes of different length lead to differ.
    pub proof fn lemma_no_cell_twice(walk: Walk, axes: Seq<Axis>, i: int, j: int)
        requires
            0 <= i < j <= axes.len(),
        ensures
            walk.cell_after(axes.take(i)) != walk.cell_after(axes.take(j)),
    {
        lemma_crossings_monotone(axes, Axis::X, i, j);
        lemma_crossings_monotone(axes, Axis::Y, i, j);
        lemma_crossings_total(axes.take(i));
        lemma_crossings_total(axes.take(j));
    }

    /// A walk depends on the grid's cells and size alone: two engines that
    /// hold the same grid take every walk the same way.
    pub proof fn lemma_same_grid_same_walk(&self, other: &RayCastEngine, walk: Walk, axes: Seq<Axis>)
        requires
            self.map@ == other.map@,
            self.map_size == other.map_size,
        ensures
            self.run(walk, axes) == other.run(walk, axes),
        decreases axes.len(),
    {
        if axes.len() > 0 {
            self.lemma_same_grid_same_walk(other, walk, axes.drop_last());
        }
    }
}

} // verus!
