use vstd::prelude::*;

use crate::chunk::{bounds_ok, spec_bounds_ok, spec_dims_ok, Chunk, ChunkDesc};
use crate::error::TileError;
use crate::rules::{spec_rule_index, spec_rule_wf, TileRules, MAX_TILE_SIZE};

verus! {

/// The index of the first chunk at or after `i` whose bounds contain the
/// world cell `(x, y)`, or the number of chunks if none does.
pub open spec fn chunk_index_from(chunks: Seq<Chunk>, i: int, x: int, y: int) -> int
    decreases chunks.len() - i,
{
    if i < 0 || i >= chunks.len() {
        chunks.len() as int
    } else if chunks[i].spec_contains(x, y) {
        i
    } else {
        chunk_index_from(chunks, i + 1, x, y)
    }
}

/// `chunk_index_from` finds the first containing chunk: its result lies
/// between `i` and the chunk count, contains the cell when it is a real
/// index, and is preceded by no containing chunk.
pub proof fn lemma_chunk_index_from(chunks: Seq<Chunk>, i: int, x: int, y: int)
    requires
        0 <= i <= chunks.len(),
    ensures
        ({
            let r = chunk_index_from(chunks, i, x, y);
            &&& i <= r <= chunks.len()
            &&& r < chunks.len() ==> chunks[r].spec_contains(x, y)
            &&& forall|j: int| i <= j < r ==> !(#[trigger] chunks[j]).spec_contains(x, y)
        }),
    decreases chunks.len() - i,
{
    if i < chunks.len() && !chunks[i].spec_contains(x, y) {
        lemma_chunk_index_from(chunks, i + 1, x, y);
    }
}

/// Chunk containment depends only on origins and sizes, so two chunk lists
/// of equal shape route every world cell to the same chunk index.
pub proof fn lemma_chunk_index_same_shape(c1: Seq<Chunk>, c2: Seq<Chunk>, i: int, x: int, y: int)
    requires
        c1.len() == c2.len(),
        forall|j: int|
            0 <= j < c1.len() ==> (#[trigger] c2[j]).x == c1[j].x && c2[j].y == c1[j].y
                && c2[j].size_x == c1[j].size_x && c2[j].size_y == c1[j].size_y,
        0 <= i <= c1.len(),
    ensures
        chunk_index_from(c1, i, x, y) == chunk_index_from(c2, i, x, y),
    decreases c1.len() - i,
{
    if i < c1.len() {
        assert(c2[i].spec_contains(x, y) == c1[i].spec_contains(x, y));
        if !c1[i].spec_contains(x, y) {
            lemma_chunk_index_same_shape(c1, c2, i + 1, x, y);
        }
    }
}

/// One emitted draw command: blit the square `size` x `size` region of the
/// atlas whose top-left pixel is `(sprite_x, sprite_y)` to the square
/// destination of side `dest_size` whose top-left pixel is
/// `(dest_x, dest_y)`, unrotated and at full opacity.
#[derive(Clone, Copy, Debug, PartialEq, Eq, Structural)]
pub struct DrawCommand {
    pub sprite_x: i64,
    pub sprite_y: i64,
    pub size: i64,
    pub dest_x: i64,
    pub dest_y: i64,
    pub dest_size: i64,
}

/// A tilemap: a loaded rule table and an ordered list of chunks. World-space
/// queries and mutations route to the first chunk whose bounds contain the
/// cell; space covered by no chunk reads as empty.
#[derive(Debug)]
pub struct TileMap {
    pub rules: TileRules,
    pub chunks: Vec<Chunk>,
}

impl TileMap {
    /// Every owned chunk satisfies the chunk invariant.
    pub open spec fn chunks_wf(self) -> bool {
        forall|i: int| 0 <= i < self.chunks@.len() ==> (#[trigger] self.chunks@[i]).wf()
    }

    /// The map invariant: well-formed chunks and a loaded, well-formed rule
    /// table.
    pub open spec fn wf(self) -> bool {
        &&& self.chunks_wf()
        &&& self.rules.wf()
        &&& self.rules.spec_loaded()
    }

    /// The index of the first chunk containing the world cell `(x, y)`, or
    /// the chunk count if none does.
    pub open spec fn spec_chunk_index(self, x: int, y: int) -> int {
        chunk_index_from(self.chunks@, 0, x, y)
    }

    /// Whether some chunk's bounds contain the world cell `(x, y)`.
    pub open spec fn spec_covers(self, x: int, y: int) -> bool {
        self.spec_chunk_index(x, y) < self.chunks@.len()
    }

    /// The occupancy at world cell `(x, y)`: the value stored by the first
    /// containing chunk, or `false` where no chunk covers the cell.
    pub open spec fn spec_get(self, x: int, y: int) -> bool {
        let i = self.spec_chunk_index(x, y);
        if i < self.chunks@.len() {
            self.chunks@[i].spec_get(x - self.chunks@[i].x, y - self.chunks@[i].y)
        } else {
            false
        }
    }

    /// A world cell covered by no chunk always reads as empty.
    pub proof fn lemma_get_outside_covers(self, x: int, y: int)
        requires
            !self.spec_covers(x, y),
        ensures
            !self.spec_get(x, y),
    {
    }

    /// Builds a map over a ready rule table, rejecting a table that is not
    /// loaded or that holds a rule with an unrepresentable tile size.
    pub fn new(rules: TileRules) -> (r: Result<TileMap, TileError>)
        ensures
            r is Ok <==> rules.spec_loaded() && rules.wf(),
            !rules.spec_loaded() ==> r == Err::<TileMap, TileError>(rules.spec_load_state_err()),
            rules.spec_loaded() && !rules.wf() ==> r == Err::<TileMap, TileError>(
                TileError::InvalidSize,
            ),
            r is Ok ==> ({
                let m = r->Ok_0;
                &&& m.rules == rules
                &&& m.chunks@.len() == 0
                &&& m.wf()
            }),
    {
        if let Err(e) = rules.check_loaded() {
            return Err(e);
        }
        let n = rules.rules.len();
        let mut i: usize = 0;
        while i < n
            invariant
                i <= n,
                n == rules.rules@.len(),
                rules.spec_loaded(),
                forall|j: int| 0 <= j < i ==> spec_rule_wf(#[trigger] rules.rules@[j]),
            decreases n - i,
        {
            let s: i64 = rules.rules[i].size;
            if s < 0 || s > MAX_TILE_SIZE {
                proof {
                    assert(!spec_rule_wf(rules.rules@[i as int]));
                }
                return Err(TileError::InvalidSize);
            }
            i = i + 1;
        }
        Ok(TileMap { rules, chunks: Vec::new() })
    }

    /// Reads the occupancy at world cell `(x, y)`: the first chunk whose
    /// bounds contain the cell answers; everywhere else is empty.
    ///
    /// Coordinates outside every chunk's bounds read as `false`.
    pub fn get(&self, x: i32, y: i32) -> (r: bool)
        requires
            self.chunks_wf(),
        ensures
            r == self.spec_get(x as int, y as int),
    {
        let n = self.chunks.len();
        let mut i: usize = 0;
        while i < n
            invariant
                i <= n,
                n == self.chunks@.len(),
                self.chunks_wf(),
                chunk_index_from(self.chunks@, 0, x as int, y as int) == chunk_index_from(
                    self.chunks@,
                    i as int,
                    x as int,
                    y as int,
                ),
            decreases n - i,
        {
            let c = &self.chunks[i];
            if x >= c.x && x < c.x + c.size_x && y >= c.y && y < c.y + c.size_y {
                return c.get(x - c.x, y - c.y);
            }
            i = i + 1;
        }
        false
    }

    /// Writes the occupancy at world cell `(x, y)` into the first chunk whose
    /// bounds contain the cell; a cell covered by no chunk is silently left
    /// alone.
    ///
    /// Afterwards, reading `(x, y)` yields the written value whenever some
    /// chunk covers the cell, and every other cell reads as before. Only the
    /// first containing chunk changes, and only at that one cell; a write to
    /// a cell covered by no chunk leaves the map entirely unchanged.
    pub fn set(&mut self, x: i32, y: i32, value: bool)
        requires
            old(self).chunks_wf(),
        ensures
            final(self).chunks_wf(),
            final(self).rules == old(self).rules,
            final(self).chunks@.len() == old(self).chunks@.len(),
            forall|j: int|
                0 <= j < old(self).chunks@.len() ==> ((#[trigger] final(self).chunks@[j]).x
                    == old(self).chunks@[j].x && final(self).chunks@[j].y == old(self).chunks@[j].y
                    && final(self).chunks@[j].size_x == old(self).chunks@[j].size_x
                    && final(self).chunks@[j].size_y == old(self).chunks@[j].size_y),
            forall|qx: int, qy: int|
                #[trigger] final(self).spec_get(qx, qy) == if qx == x as int && qy == y as int
                    && old(self).spec_covers(x as int, y as int) {
                    value
                } else {
                    old(self).spec_get(qx, qy)
                },
            !old(self).spec_covers(x as int, y as int) ==> *final(self) == *old(self),
            old(self).spec_covers(x as int, y as int) ==> ({
                let k = old(self).spec_chunk_index(x as int, y as int);
                &&& forall|j: int|
                    0 <= j < old(self).chunks@.len() && j != k
                        ==> (#[trigger] final(self).chunks@[j]) == old(self).chunks@[j]
                &&& forall|lx: int, ly: int|
                    #[trigger] final(self).chunks@[k].spec_get(lx, ly) == if lx == x
                        - old(self).chunks@[k].x && ly == y - old(self).chunks@[k].y {
                        value
                    } else {
                        old(self).chunks@[k].spec_get(lx, ly)
                    }
            }),
    {
        let n = self.chunks.len();
        let mut i: usize = 0;
        while i < n
            invariant
                i <= n,
                n == self.chunks@.len(),
                *self == *old(self),
                self.chunks_wf(),
                chunk_index_from(self.chunks@, 0, x as int, y as int) == chunk_index_from(
                    self.chunks@,
                    i as int,
                    x as int,
                    y as int,
                ),
            decreases n - i,
        {
            let c = &self.chunks[i];
            if x >= c.x && x < c.x + c.size_x && y >= c.y && y < c.y + c.size_y {
                let cx = c.x;
                let cy = c.y;
                proof {
                    assert(chunk_index_from(self.chunks@, i as int, x as int, y as int)
                        == i as int);
                }
                let cm = &mut self.chunks[i];
                cm.set(x - cx, y - cy, value);
                proof {
                    let oldc = old(self).chunks@;
                    let newc = self.chunks@;
                    assert(newc == oldc.update(i as int, newc[i as int]));
                    assert forall|qx: int, qy: int|
                        #[trigger] self.spec_get(qx, qy) == if qx == x as int && qy == y as int
                            && old(self).spec_covers(x as int, y as int) {
                            value
                        } else {
                            old(self).spec_get(qx, qy)
                        } by {
                        lemma_chunk_index_same_shape(oldc, newc, 0, qx, qy);
                        lemma_chunk_index_from(oldc, 0, qx, qy);
                    }
                }
                return ;
            }
            i = i + 1;
        }
        proof {
            lemma_chunk_index_from(self.chunks@, 0, x as int, y as int);
        }
    }

    /// Appends an empty (all-absent) chunk with the given origin and size.
    pub fn add_chunk(&mut self, x: i32, y: i32, size_x: i32, size_y: i32) -> (r: Result<
        (),
        TileError,
    >)
        ensures
            r is Ok <==> spec_bounds_ok(x as int, y as int, size_x as int, size_y as int),
            r is Err ==> *final(self) == *old(self) && r->Err_0 == TileError::InvalidChunkSize,
            r is Ok ==> ({
                let c = final(self).chunks@[old(self).chunks@.len() as int];
                &&& final(self).rules == old(self).rules
                &&& final(self).chunks@.len() == old(self).chunks@.len() + 1
                &&& forall|j: int|
                    0 <= j < old(self).chunks@.len() ==> (#[trigger] final(self).chunks@[j]) == old(
                        self,
                    ).chunks@[j]
                &&& c.x == x && c.y == y && c.size_x == size_x && c.size_y == size_y
                &&& c.wf()
                &&& forall|lx: int, ly: int| !(#[trigger] c.spec_get(lx, ly))
            }),
    {
        if !bounds_ok(x, y, size_x, size_y) {
            return Err(TileError::InvalidChunkSize);
        }
        let sx = size_x as usize;
        let sy = size_y as usize;
        let mut data: Vec<Vec<bool>> = Vec::new();
        let mut ry: usize = 0;
        while ry < sy
            invariant
                ry <= sy,
                sx == size_x as int,
                data@.len() == ry,
                forall|j: int| 0 <= j < data@.len() ==> (#[trigger] data@[j])@.len() == sx as int,
                forall|j: int, k: int|
                    0 <= j < data@.len() && 0 <= k < sx ==> (#[trigger] data@[j]@[k]) == false,
            decreases sy - ry,
        {
            let mut rowv: Vec<bool> = Vec::new();
            let mut rx: usize = 0;
            while rx < sx
                invariant
                    rx <= sx,
                    rowv@.len() == rx,
                    forall|k: int| 0 <= k < rowv@.len() ==> (#[trigger] rowv@[k]) == false,
                decreases sx - rx,
            {
                rowv.push(false);
                rx = rx + 1;
            }
            data.push(rowv);
            ry = ry + 1;
        }
        match Chunk::new(x, y, size_x, size_y, data) {
            Err(_) => {
                proof {
                    assert(false);
                }
                Err(TileError::InvalidChunkSize)
            },
            Ok(c) => {
                self.chunks.push(c);
                Ok(())
            },
        }
    }

    /// Appends a chunk populated from a declarative description, rejecting a
    /// description whose row data is inconsistent with its declared
    /// dimensions.
    pub fn load_chunk(&mut self, desc: ChunkDesc) -> (r: Result<(), TileError>)
        ensures
            r is Ok <==> spec_bounds_ok(
                desc.x as int,
                desc.y as int,
                desc.size_x as int,
                desc.size_y as int,
            ) && spec_dims_ok(desc.data@, desc.size_x as int, desc.size_y as int),
            r == Err::<(), TileError>(TileError::InvalidChunkSize) <==> !spec_bounds_ok(
                desc.x as int,
                desc.y as int,
                desc.size_x as int,
                desc.size_y as int,
            ),
            r == Err::<(), TileError>(TileError::InvalidChunkData) <==> spec_bounds_ok(
                desc.x as int,
                desc.y as int,
                desc.size_x as int,
                desc.size_y as int,
            ) && !spec_dims_ok(desc.data@, desc.size_x as int, desc.size_y as int),
            r is Err ==> *final(self) == *old(self),
            r is Ok ==> ({
                let c = final(self).chunks@[old(self).chunks@.len() as int];
                &&& final(self).rules == old(self).rules
                &&& final(self).chunks@.len() == old(self).chunks@.len() + 1
                &&& forall|j: int|
                    0 <= j < old(self).chunks@.len() ==> (#[trigger] final(self).chunks@[j]) == old(
                        self,
                    ).chunks@[j]
                &&& c.x == desc.x && c.y == desc.y && c.size_x == desc.size_x && c.size_y
                    == desc.size_y
                &&& c.data == desc.data
                &&& c.wf()
            }),
    {
        match Chunk::new(desc.x, desc.y, desc.size_x, desc.size_y, desc.data) {
            Err(e) => Err(e),
            Ok(c) => {
                self.chunks.push(c);
                Ok(())
            },
        }
    }

    /// The upper-left occupancy sample of visual cell `(x, y)` of chunk `ci`:
    /// read from that chunk alone, so a neighbor covered only by another
    /// chunk reads as absent. The other three samples are map-wide. This
    /// asymmetry is kept deliberately, for parity with the established
    /// rendering behavior at chunk borders.
    pub open spec fn spec_pattern0(self, ci: int, x: int, y: int) -> bool {
        self.chunks@[ci].spec_get(x, y)
    }

    /// The upper-right occupancy sample of visual cell `(x, y)` of chunk
    /// `ci`, read map-wide in world coordinates.
    pub open spec fn spec_pattern1(self, ci: int, x: int, y: int) -> bool {
        self.spec_get(x + 1 + self.chunks@[ci].x, y + self.chunks@[ci].y)
    }

    /// The third occupancy sample of visual cell `(x, y)` of chunk `ci`,
    /// read map-wide in world coordinates.
    pub open spec fn spec_pattern2(self, ci: int, x: int, y: int) -> bool {
        self.spec_get(x + self.chunks@[ci].x, y + 1 + self.chunks@[ci].y)
    }

    /// The fourth occupancy sample of visual cell `(x, y)` of chunk `ci`,
    /// read map-wide in world coordinates.
    pub open spec fn spec_pattern3(self, ci: int, x: int, y: int) -> bool {
        self.spec_get(x + 1 + self.chunks@[ci].x, y + 1 + self.chunks@[ci].y)
    }

    /// The rule index that visual cell `(x, y)` of chunk `ci` resolves to,
    /// or the table length when its pattern has no rule.
    pub open spec fn spec_cell_rule(self, ci: int, x: int, y: int) -> int {
        spec_rule_index(
            self.rules.rules@,
            self.spec_pattern0(ci, x, y),
            self.spec_pattern1(ci, x, y),
            self.spec_pattern2(ci, x, y),
            self.spec_pattern3(ci, x, y),
        )
    }

    /// Whether visual cell `(x, y)` of chunk `ci` resolves to some rule.
    pub open spec fn spec_cell_ok(self, ci: int, x: int, y: int) -> bool {
        self.spec_cell_rule(ci, x, y) < self.rules.rules@.len()
    }

    /// Whether every visual cell of every chunk resolves to some rule.
    pub open spec fn all_cells_ok(self) -> bool {
        forall|ci: int, x: int, y: int|
            0 <= ci < self.chunks@.len() && -1 <= x < self.chunks@[ci].size_x && -1 <= y
                < self.chunks@[ci].size_y ==> #[trigger] self.spec_cell_ok(ci, x, y)
    }

    /// The draw command emitted for visual cell `(x, y)` of chunk `ci`: the
    /// resolved rule's sprite region, blitted at a 4x scale to the square
    /// destination centered over the shared corner of the four sampled
    /// occupancy cells.
    pub open spec fn spec_command(self, ci: int, x: int, y: int) -> DrawCommand {
        let c = self.chunks@[ci];
        let r = self.rules.rules@[self.spec_cell_rule(ci, x, y)];
        DrawCommand {
            sprite_x: r.sprite_x,
            sprite_y: r.sprite_y,
            size: r.size,
            dest_x: ((c.x + x) * r.size * 4 + r.size * 2) as i64,
            dest_y: ((c.y + y) * r.size * 4 + r.size * 2) as i64,
            dest_size: (r.size * 4) as i64,
        }
    }

    /// The commands of the first `n` visual cells of row `y` of chunk `ci`,
    /// in order of increasing `x` from -1.
    pub open spec fn spec_row_cmds(self, ci: int, y: int, n: int) -> Seq<DrawCommand>
        decreases n,
    {
        if n <= 0 {
            Seq::empty()
        } else {
            self.spec_row_cmds(ci, y, n - 1).push(self.spec_command(ci, n - 2, y))
        }
    }

    /// The commands of the first `m` visual rows of chunk `ci`, in order of
    /// increasing `y` from -1.
    pub open spec fn spec_chunk_cmds(self, ci: int, m: int) -> Seq<DrawCommand>
        decreases m,
    {
        if m <= 0 {
            Seq::empty()
        } else {
            self.spec_chunk_cmds(ci, m - 1) + self.spec_row_cmds(
                ci,
                m - 2,
                self.chunks@[ci].size_x + 1,
            )
        }
    }

    /// The commands of the first `k` chunks, in chunk order.
    pub open spec fn spec_prefix_cmds(self, k: int) -> Seq<DrawCommand>
        decreases k,
    {
        if k <= 0 {
            Seq::empty()
        } else {
            self.spec_prefix_cmds(k - 1) + self.spec_chunk_cmds(
                k - 1,
                self.chunks@[k - 1].size_y + 1,
            )
        }
    }

    /// The full command sequence of one frame: for each chunk in order,
    /// every visual cell of its half-open range x in [-1, size_x),
    /// y in [-1, size_y), row by row.
    pub open spec fn spec_draw(self) -> Seq<DrawCommand> {
        self.spec_prefix_cmds(self.chunks@.len() as int)
    }

    /// Drawing is idempotent: any two results that satisfy `draw`'s
    /// postcondition for the same map state agree, so repeated calls with no
    /// mutation in between emit identical command sequences.
    pub proof fn lemma_draw_idempotent(
        self,
        r1: Result<Vec<DrawCommand>, TileError>,
        r2: Result<Vec<DrawCommand>, TileError>,
    )
        requires
            r1 is Ok <==> self.all_cells_ok(),
            r2 is Ok <==> self.all_cells_ok(),
            r1 is Ok ==> r1->Ok_0@ == self.spec_draw(),
            r2 is Ok ==> r2->Ok_0@ == self.spec_draw(),
            !self.all_cells_ok() ==> r1 == Err::<Vec<DrawCommand>, TileError>(
                TileError::RuleNotFound,
            ),
            !self.all_cells_ok() ==> r2 == Err::<Vec<DrawCommand>, TileError>(
                TileError::RuleNotFound,
            ),
        ensures
            r1 is Ok <==> r2 is Ok,
            r1 is Ok ==> r1->Ok_0@ == r2->Ok_0@,
            r1 is Err ==> r1 == r2,
    {
    }

    /// Walks every visual cell of every chunk, samples the four diagonal
    /// occupancy neighbors, resolves the pattern against the rule table, and
    /// emits the scaled draw command for the resolved sprite region.
    ///
    /// The emitted sequence is exactly `spec_draw`, a function of the map
    /// state alone, so repeated calls without intervening mutation emit
    /// identical sequences. Fails with `RuleNotFound`, and only then, when
    /// some sampled pattern has no rule.
    #[verifier::loop_isolation(false)]
    pub fn draw(&self) -> (r: Result<Vec<DrawCommand>, TileError>)
        requires
            self.wf(),
        ensures
            r is Ok <==> self.all_cells_ok(),
            r is Ok ==> r->Ok_0@ == self.spec_draw(),
            !self.all_cells_ok() ==> r == Err::<Vec<DrawCommand>, TileError>(
                TileError::RuleNotFound,
            ),
    {
        let mut cmds: Vec<DrawCommand> = Vec::new();
        let nc = self.chunks.len();
        let mut ci: usize = 0;
        while ci < nc
            invariant
                ci <= nc,
                cmds@ == self.spec_prefix_cmds(ci as int),
                forall|cj: int, xx: int, yy: int|
                    0 <= cj < ci && -1 <= xx < self.chunks@[cj].size_x && -1 <= yy
                        < self.chunks@[cj].size_y ==> #[trigger] self.spec_cell_ok(cj, xx, yy),
            decreases nc - ci,
        {
            let c = &self.chunks[ci];
            let mut y: i32 = -1;
            proof {
                assert(cmds@ =~= self.spec_prefix_cmds(ci as int) + self.spec_chunk_cmds(
                    ci as int,
                    0,
                ));
            }
            while y < c.size_y
                invariant
                    -1 <= y <= c.size_y,
                    cmds@ == self.spec_prefix_cmds(ci as int) + self.spec_chunk_cmds(
                        ci as int,
                        y + 1,
                    ),
                    forall|xx: int, yy: int|
                        -1 <= xx < c.size_x && -1 <= yy < y ==> #[trigger] self.spec_cell_ok(
                            ci as int,
                            xx,
                            yy,
                        ),
                decreases c.size_y - y,
            {
                let mut x: i32 = -1;
                proof {
                    assert(cmds@ =~= self.spec_prefix_cmds(ci as int) + self.spec_chunk_cmds(
                        ci as int,
                        y + 1,
                    ) + self.spec_row_cmds(ci as int, y as int, 0));
                }
                while x < c.size_x
                    invariant
                        -1 <= x <= c.size_x,
                        cmds@ == self.spec_prefix_cmds(ci as int) + self.spec_chunk_cmds(
                            ci as int,
                            y + 1,
                        ) + self.spec_row_cmds(ci as int, y as int, x + 1),
                        forall|xx: int|
                            -1 <= xx < x ==> #[trigger] self.spec_cell_ok(ci as int, xx, y as int),
                    decreases c.size_x - x,
                {
                    let n0 = c.get(x, y);
                    let n1 = self.get(x + 1 + c.x, y + c.y);
                    let n2 = self.get(x + c.x, y + 1 + c.y);
                    let n3 = self.get(x + 1 + c.x, y + 1 + c.y);
                    let neighbors: [bool; 4] = [n0, n1, n2, n3];
                    proof {
                        assert(n0 == self.spec_pattern0(ci as int, x as int, y as int));
                        assert(n1 == self.spec_pattern1(ci as int, x as int, y as int));
                        assert(n2 == self.spec_pattern2(ci as int, x as int, y as int));
                        assert(n3 == self.spec_pattern3(ci as int, x as int, y as int));
                    }
                    match self.rules.tile_by_rules(neighbors) {
                        Err(_) => {
                            proof {
                                assert(!self.spec_cell_ok(ci as int, x as int, y as int));
                                assert(!self.all_cells_ok());
                            }
                            return Err(TileError::RuleNotFound);
                        },
                        Ok(rule) => {
                            let s: i64 = rule.size;
                            let dx: i64 = c.x as i64 + x as i64;
                            let dy: i64 = c.y as i64 + y as i64;
                            proof {
                                crate::rules::lemma_rule_index_from(
                                    self.rules.rules@,
                                    0,
                                    n0,
                                    n1,
                                    n2,
                                    n3,
                                );
                                assert(spec_rule_wf(
                                    self.rules.rules@[self.spec_cell_rule(
                                        ci as int,
                                        x as int,
                                        y as int,
                                    )],
                                ));
                                assert(0 <= s <= MAX_TILE_SIZE);
                                assert((-1152921504606846976) <= dx * s && dx * s
                                    <= 1152921504606846976) by (nonlinear_arith)
                                    requires
                                        -2147483648 <= dx <= 2147483647,
                                        0 <= s <= 536870912,
                                ;
                                assert((-1152921504606846976) <= dy * s && dy * s
                                    <= 1152921504606846976) by (nonlinear_arith)
                                    requires
                                        -2147483648 <= dy <= 2147483647,
                                        0 <= s <= 536870912,
                                ;
                            }
                            let dest_x: i64 = dx * s * 4 + s * 2;
                            let dest_y: i64 = dy * s * 4 + s * 2;
                            let cmd = DrawCommand {
                                sprite_x: rule.sprite_x,
                                sprite_y: rule.sprite_y,
                                size: s,
                                dest_x,
                                dest_y,
                                dest_size: s * 4,
                            };
                            proof {
                                assert(cmd == self.spec_command(ci as int, x as int, y as int));
                            }
                            cmds.push(cmd);
                            proof {
                                assert(cmds@ =~= self.spec_prefix_cmds(ci as int)
                                    + self.spec_chunk_cmds(ci as int, y + 1) + self.spec_row_cmds(
                                    ci as int,
                                    y as int,
                                    x + 2,
                                ));
                            }
                        },
                    }
                    x = x + 1;
                }
                proof {
                    assert(cmds@ =~= self.spec_prefix_cmds(ci as int) + self.spec_chunk_cmds(
                        ci as int,
                        y + 2,
                    ));
                }
                y = y + 1;
            }
            proof {
                assert(cmds@ =~= self.spec_prefix_cmds(ci as int + 1));
            }
            ci = ci + 1;
        }
        Ok(cmds)
    }
}

} // verus!
