use vstd::prelude::*;

use crate::error::TileError;

verus! {

/// A fixed-size rectangular boolean occupancy grid with an origin offset in
/// world-cell coordinates.
///
/// Out-of-range reads return `false` and out-of-range writes are ignored:
/// absence is the defined behavior outside the grid, which lets draw-time
/// neighbor sampling at chunk borders avoid special cases.
#[derive(Debug)]
pub struct Chunk {
    pub x: i32,
    pub y: i32,
    pub size_x: i32,
    pub size_y: i32,
    pub data: Vec<Vec<bool>>,
}

/// The origin and size of a chunk are representable: sizes are non-negative
/// and the chunk's bounds, as well as the cells one step to its upper left,
/// stay within the coordinate range.
pub open spec fn spec_bounds_ok(x: int, y: int, size_x: int, size_y: int) -> bool {
    &&& 0 <= size_x
    &&& 0 <= size_y
    &&& i32::MIN + 1 <= x
    &&& i32::MIN + 1 <= y
    &&& x + size_x <= i32::MAX
    &&& y + size_y <= i32::MAX
}

/// The row data matches the declared dimensions: `size_y` rows of `size_x`
/// cells each.
pub open spec fn spec_dims_ok(data: Seq<Vec<bool>>, size_x: int, size_y: int) -> bool {
    &&& data.len() == size_y
    &&& forall|r: int| 0 <= r < data.len() ==> (#[trigger] data[r])@.len() == size_x
}

/// A declarative chunk description: a world-cell origin, dimensions, and
/// boolean row data whose row count must equal `size_y` and whose row lengths
/// must equal `size_x`.
#[derive(Debug)]
pub struct ChunkDesc {
    pub x: i32,
    pub y: i32,
    pub size_x: i32,
    pub size_y: i32,
    pub data: Vec<Vec<bool>>,
}

/// Checks that a chunk origin and size are representable.
pub fn bounds_ok(x: i32, y: i32, size_x: i32, size_y: i32) -> (r: bool)
    ensures
        r == spec_bounds_ok(x as int, y as int, size_x as int, size_y as int),
{
    size_x >= 0 && size_y >= 0 && x != i32::MIN && y != i32::MIN && (x as i64) + (size_x as i64)
        <= (i32::MAX as i64) && (y as i64) + (size_y as i64) <= (i32::MAX as i64)
}

impl Chunk {
    /// The chunk invariant: representable bounds and a buffer whose
    /// dimensions exactly match the declared width and height.
    pub open spec fn wf(self) -> bool {
        &&& spec_bounds_ok(self.x as int, self.y as int, self.size_x as int, self.size_y as int)
        &&& spec_dims_ok(self.data@, self.size_x as int, self.size_y as int)
    }

    /// Whether the world-cell `(x, y)` lies within this chunk's bounds.
    pub open spec fn spec_contains(self, x: int, y: int) -> bool {
        &&& self.x <= x < self.x + self.size_x
        &&& self.y <= y < self.y + self.size_y
    }

    /// The occupancy value at local coordinates `(x, y)`: the stored boolean
    /// in range, `false` outside.
    pub open spec fn spec_get(self, x: int, y: int) -> bool {
        if 0 <= x < self.size_x && 0 <= y < self.size_y {
            self.data@[y]@[x]
        } else {
            false
        }
    }

    /// Builds a chunk from an explicit 2D boolean array, validating that the
    /// array's outer length equals `size_y` and each inner length equals
    /// `size_x`, and that the origin and size are representable.
    pub fn new(x: i32, y: i32, size_x: i32, size_y: i32, data: Vec<Vec<bool>>) -> (r: Result<
        Chunk,
        TileError,
    >)
        ensures
            r is Ok <==> spec_bounds_ok(x as int, y as int, size_x as int, size_y as int)
                && spec_dims_ok(data@, size_x as int, size_y as int),
            r == Err::<Chunk, TileError>(TileError::InvalidChunkSize) <==> !spec_bounds_ok(
                x as int,
                y as int,
                size_x as int,
                size_y as int,
            ),
            r == Err::<Chunk, TileError>(TileError::InvalidChunkData) <==> spec_bounds_ok(
                x as int,
                y as int,
                size_x as int,
                size_y as int,
            ) && !spec_dims_ok(data@, size_x as int, size_y as int),
            r is Ok ==> {
                let c = r->Ok_0;
                c.x == x && c.y == y && c.size_x == size_x && c.size_y == size_y && c.data == data
                    && c.wf()
            },
    {
        if size_x < 0 || size_y < 0 {
            return Err(TileError::InvalidChunkSize);
        }
        if x == i32::MIN || y == i32::MIN {
            return Err(TileError::InvalidChunkSize);
        }
        if (x as i64) + (size_x as i64) > (i32::MAX as i64) {
            return Err(TileError::InvalidChunkSize);
        }
        if (y as i64) + (size_y as i64) > (i32::MAX as i64) {
            return Err(TileError::InvalidChunkSize);
        }
        if data.len() != size_y as usize {
            return Err(TileError::InvalidChunkData);
        }
        let mut row: usize = 0;
        while row < data.len()
            invariant
                row <= data@.len(),
                spec_bounds_ok(x as int, y as int, size_x as int, size_y as int),
                data@.len() == size_y as int,
                forall|r: int| 0 <= r < row ==> (#[trigger] data@[r])@.len() == size_x as int,
            decreases data@.len() - row,
        {
            if data[row].len() != size_x as usize {
                proof {
                    assert(data@[row as int]@.len() != size_x as int);
                    assert(!spec_dims_ok(data@, size_x as int, size_y as int));
                }
                return Err(TileError::InvalidChunkData);
            }
            row = row + 1;
        }
        Ok(Chunk { x, y, size_x, size_y, data })
    }

    /// Reads the occupancy at local coordinates `(x, y)`; out-of-range
    /// coordinates read as `false`.
    pub fn get(&self, x: i32, y: i32) -> (r: bool)
        requires
            self.wf(),
        ensures
            r == self.spec_get(x as int, y as int),
    {
        if x < 0 || x >= self.size_x || y < 0 || y >= self.size_y {
            return false;
        }
        self.data[y as usize][x as usize]
    }

    /// Writes the occupancy at local coordinates `(x, y)`; out-of-range
    /// coordinates are silently ignored.
    pub fn set(&mut self, x: i32, y: i32, value: bool)
        requires
            old(self).wf(),
        ensures
            final(self).wf(),
            final(self).x == old(self).x,
            final(self).y == old(self).y,
            final(self).size_x == old(self).size_x,
            final(self).size_y == old(self).size_y,
            forall|lx: int, ly: int|
                final(self).spec_get(lx, ly) == if lx == x as int && ly == y as int {
                    if 0 <= x < old(self).size_x && 0 <= y < old(self).size_y {
                        value
                    } else {
                        old(self).spec_get(lx, ly)
                    }
                } else {
                    old(self).spec_get(lx, ly)
                },
    {
        if x < 0 || x >= self.size_x || y < 0 || y >= self.size_y {
            return ;
        }
        let row = &mut self.data[y as usize];
        row[x as usize] = value;
    }
}

} // verus!
