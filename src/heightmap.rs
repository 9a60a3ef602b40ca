use vstd::prelude::*;

use crate::CHUNK_SIZE;

verus! {

/// Position of column `(x, y)` in a heightmap's storage.
pub open spec fn column_index(x: int, y: int) -> int {
    x + y * CHUNK_SIZE
}

/// Elevation of every column over one chunk's horizontal footprint.
pub struct Heightmap {
    data: Vec<isize>,
}

impl Heightmap {
    pub closed spec fn wf(&self) -> bool {
        self.data@.len() == CHUNK_SIZE * CHUNK_SIZE
    }

    /// Elevation of column `(x, y)`.
    pub closed spec fn height(&self, x: int, y: int) -> isize {
        self.data@[column_index(x, y)]
    }

    /// A heightmap that is flat at elevation zero.
    pub fn new() -> (r: Heightmap)
        ensures
            r.wf(),
            forall|x: int, y: int|
                0 <= x < CHUNK_SIZE && 0 <= y < CHUNK_SIZE ==> #[trigger] r.height(x, y) == 0,
    {
        let mut data: Vec<isize> = Vec::new();
        let n: usize = CHUNK_SIZE * CHUNK_SIZE;
        while data.len() < n
            invariant
                data.len() <= n,
                forall|i: int| 0 <= i < data.len() ==> data@[i] == 0,
            decreases n - data.len(),
        {
            data.push(0);
        }
        Heightmap { data }
    }

    /// Elevation of column `coord`.
    pub fn get(&self, coord: &(usize, usize)) -> (r: isize)
        requires
            self.wf(),
            coord.0 < CHUNK_SIZE,
            coord.1 < CHUNK_SIZE,
        ensures
            r == self.height(coord.0 as int, coord.1 as int),
    {
        self.data[coord.0 + coord.1 * CHUNK_SIZE]
    }

    /// Sets the elevation of column `coord`, leaving the others as they were.
    pub fn set(&mut self, coord: &(usize, usize), value: isize)
        requires
            old(self).wf(),
            coord.0 < CHUNK_SIZE,
            coord.1 < CHUNK_SIZE,
        ensures
            final(self).wf(),
            forall|x: int, y: int|
                0 <= x < CHUNK_SIZE && 0 <= y < CHUNK_SIZE ==> #[trigger] final(self).height(x, y)
                    == if x == coord.0 && y == coord.1 {
                    value
                } else {
                    old(self).height(x, y)
                },
    {
        let i: usize = coord.0 + coord.1 * CHUNK_SIZE;
        self.data.set(i, value);
        assert forall|x: int, y: int|
            0 <= x < CHUNK_SIZE && 0 <= y < CHUNK_SIZE && (x != coord.0 || y != coord.1)
            implies column_index(x, y) != i by {
            if y == coord.1 {
            } else {
                assert(column_index(x, y) != i) by (nonlinear_arith)
                    requires
                        0 <= x < 16,
                        0 <= coord.0 < 16,
                        y != coord.1,
                        i == coord.0 + coord.1 * 16,
                ;
            }
        }
    }
}

} // verus!
