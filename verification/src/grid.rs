//! The occupancy grid: a rectangle of cells stored row by row.

use vstd::prelude::*;

verus! {

/// A rectangular occupancy grid and the ray walks over it.
///
/// `map` holds the cells row by row, `map_size` is `(width, height)`. A cell
/// value of `0` is open space; any other value tags a wall.
pub struct RayCastEngine {
    pub map: Vec<u32>,
    pub map_size: (usize, usize),
}

/// Whether `len` cells fill a grid of the given `(width, height)` exactly,
/// with both dimensions small enough for signed 64-bit cell coordinates.
pub open spec fn fills(len: nat, map_size: (usize, usize)) -> bool {
    &&& len == map_size.0 * map_size.1
    &&& map_size.0 <= i64::MAX
    &&& map_size.1 <= i64::MAX
}

/// Decides `fills` for a map of `len` cells.
pub fn check_fill(len: usize, map_size: (usize, usize)) -> (ok: bool)
    ensures
        ok == fills(len as nat, map_size),
{
    let limit: u64 = 0x7fff_ffff_ffff_ffff;
    if map_size.0 as u64 > limit || map_size.1 as u64 > limit {
        return false;
    }
    match map_size.0.checked_mul(map_size.1) {
        Some(area) => area == len,
        None => false,
    }
}

impl RayCastEngine {
    /// The grid invariant: the map holds exactly `width * height` cells.
    pub open spec fn wf(&self) -> bool {
        fills(self.map@.len(), self.map_size)
    }

    /// Number of columns.
    pub open spec fn width(&self) -> int {
        self.map_size.0 as int
    }

    /// Number of rows.
    pub open spec fn height(&self) -> int {
        self.map_size.1 as int
    }

    /// Whether `(x, y)` names a cell of the grid.
    pub open spec fn in_bounds(&self, x: int, y: int) -> bool {
        0 <= x < self.width() && 0 <= y < self.height()
    }

    /// The value stored for cell `(x, y)`.
    pub open spec fn value_at(&self, x: int, y: int) -> u32
        recommends
            self.in_bounds(x, y),
    {
        self.map@[y * self.width() + x]
    }

    /// What a ray finds at `(x, y)`: the cell's value, or nothing outside the
    /// grid.
    pub open spec fn lookup(&self, x: int, y: int) -> Option<u32> {
        if self.in_bounds(x, y) {
            Some(self.value_at(x, y))
        } else {
            None
        }
    }

    /// Every cell of the grid is open.
    pub open spec fn all_open(&self) -> bool {
        forall|x: int, y: int| self.in_bounds(x, y) ==> #[trigger] self.value_at(x, y) == 0
    }

    /// Builds an engine over `map`, a grid of `map_size.0` columns and
    /// `map_size.1` rows.
    pub fn new(map: Vec<u32>, map_size: (usize, usize)) -> (engine: Self)
        requires
            fills(map@.len(), map_size),
        ensures
            engine.map == map,
            engine.map_size == map_size,
            engine.wf(),
    {
        Self { map, map_size }
    }

    /// Builds an engine if `map` fills the grid exactly, and refuses
    /// otherwise.
    pub fn try_new(map: Vec<u32>, map_size: (usize, usize)) -> (engine: Option<Self>)
        ensures
            engine is Some <==> fills(map@.len(), map_size),
            engine matches Some(e) ==> e.map == map && e.map_size == map_size && e.wf(),
    {
        if check_fill(map.len(), map_size) {
            Some(Self { map, map_size })
        } else {
            None
        }
    }

    /// Decides the grid invariant for an engine whose fields were set by hand.
    pub fn is_well_formed(&self) -> (ok: bool)
        ensures
            ok == self.wf(),
    {
        check_fill(self.map.len(), self.map_size)
    }

    /// The flat index of an in-bounds cell lies inside the map.
    pub proof fn lemma_index_in_map(&self, x: int, y: int)
        requires
            self.wf(),
            self.in_bounds(x, y),
        ensures
            0 <= y * self.width(),
            0 <= y * self.width() + x < self.map@.len(),
    {
        let w = self.width();
        let h = self.height();
        assert(y * w + x < h * w) by (nonlinear_arith)
            requires
                0 <= x < w,
                0 <= y < h,
        ;
        assert(0 <= y * w) by (nonlinear_arith)
            requires
                0 <= y,
                0 <= w,
        ;
        assert(h * w == w * h) by (nonlinear_arith);
    }

    /// Reads the cell at `(x, y)`; `None` when the coordinates lie outside the
    /// grid. Never reads outside the map.
    pub fn cell_at(&self, x: i64, y: i64) -> (value: Option<u32>)
        requires
            self.wf(),
        ensures
            value == self.lookup(x as int, y as int),
    {
        if x < 0 || y < 0 {
            return None;
        }
        if x as u64 >= self.map_size.0 as u64 || y as u64 >= self.map_size.1 as u64 {
            return None;
        }
        proof {
            self.lemma_index_in_map(x as int, y as int);
            assert(self.map.len() <= usize::MAX);
        }
        let col: usize = x as usize;
        let row: usize = y as usize;
        Some(self.map[row * self.map_size.0 + col])
    }
}

} // verus!
