//! The static tile collision map: a grid of cells classified as empty,
//! solid, or jump-through, with point and shape-overlap queries.

use vstd::prelude::*;

use crate::geom::{floor_div, Rect, SpecRect, SpecVec2, Vec2, FP_ONE, MAX_COORD, MAX_DIM};

verus! {

/// Classification of a map cell, or of a shape-overlap query. When a shape
/// overlaps both solid and jump-through cells, solid wins.
#[derive(Clone, Copy, Debug, PartialEq, Eq, Structural)]
pub enum TileCollisionKind {
    Empty,
    JumpThrough,
    Solid,
}

/// A restriction on which cells a shape-overlap query may report.
#[derive(Clone, Copy, Debug, PartialEq, Eq, Structural)]
pub enum TileFilter {
    /// Consider every cell.
    Any,
    /// Ignore jump-through cells (used by the ground probe once a body has
    /// passed through a platform).
    ExcludeJumpThrough,
    /// Consider only jump-through cells (used by the fall-through check).
    OnlyJumpThrough,
}

impl TileFilter {
    /// Whether the filter lets cells of kind `k` count.
    pub open spec fn admits(self, k: TileCollisionKind) -> bool {
        match self {
            TileFilter::Any => true,
            TileFilter::ExcludeJumpThrough => k != TileCollisionKind::JumpThrough,
            TileFilter::OnlyJumpThrough => k == TileCollisionKind::JumpThrough,
        }
    }
}

/// Largest grid side length the map accepts.
pub const MAX_GRID: usize = 40_000;

/// The static tile collision map. Cell `(i, j)` covers world-space
/// `[i*tile_size, (i+1)*tile_size) x [j*tile_size, (j+1)*tile_size)`;
/// every cell outside the grid is empty.
#[derive(Debug)]
pub struct TileMap {
    pub tile_size: i64,
    pub width: usize,
    pub height: usize,
    pub tiles: Vec<TileCollisionKind>,
}

impl TileMap {
    /// The grid dimensions are in range and the cell store matches them.
    pub open spec fn wf(self) -> bool {
        &&& FP_ONE <= self.tile_size <= MAX_DIM
        &&& 0 < self.width <= MAX_GRID
        &&& 0 < self.height <= MAX_GRID
        &&& self.tiles@.len() == self.width * self.height
    }

    pub open spec fn spec_tile_size(self) -> int {
        self.tile_size as int
    }

    pub open spec fn spec_width(self) -> int {
        self.width as int
    }

    pub open spec fn spec_height(self) -> int {
        self.height as int
    }

    /// The classification of cell `(i, j)`; empty outside the grid.
    pub open spec fn kind_at(self, i: int, j: int) -> TileCollisionKind {
        if 0 <= i < self.spec_width() && 0 <= j < self.spec_height() {
            self.tiles@[j * self.spec_width() + i]
        } else {
            TileCollisionKind::Empty
        }
    }

    /// Whether cell `(i, j)`'s open interior intersects the open interior of
    /// `rect`; touching along an edge does not count.
    pub open spec fn cell_overlaps(self, rect: SpecRect, i: int, j: int) -> bool {
        let ts = self.spec_tile_size();
        &&& i * ts < rect.max.x
        &&& (i + 1) * ts > rect.min.x
        &&& j * ts < rect.max.y
        &&& (j + 1) * ts > rect.min.y
    }

    /// Whether some cell of kind `k` overlaps `rect`.
    pub open spec fn has_overlap_kind(self, rect: SpecRect, k: TileCollisionKind) -> bool {
        exists|i: int, j: int| self.cell_overlaps(rect, i, j) && #[trigger] self.kind_at(i, j) == k
    }

    /// The classification of a shape-overlap query on `rect` under `filter`:
    /// solid if any admitted solid cell overlaps, else jump-through if any
    /// admitted jump-through cell overlaps, else empty.
    pub open spec fn spec_collision(self, rect: SpecRect, filter: TileFilter) -> TileCollisionKind {
        if filter.admits(TileCollisionKind::Solid) && self.has_overlap_kind(
            rect,
            TileCollisionKind::Solid,
        ) {
            TileCollisionKind::Solid
        } else if filter.admits(TileCollisionKind::JumpThrough) && self.has_overlap_kind(
            rect,
            TileCollisionKind::JumpThrough,
        ) {
            TileCollisionKind::JumpThrough
        } else {
            TileCollisionKind::Empty
        }
    }

    /// The classification of the cell containing point `p` (cells are
    /// half-open, so a point on a cell's lower or left edge belongs to it).
    pub open spec fn spec_kind_at_point(self, p: SpecVec2) -> TileCollisionKind {
        self.kind_at(p.x / self.spec_tile_size(), p.y / self.spec_tile_size())
    }

    /// Whether the cell containing point `p` is solid.
    pub open spec fn spec_solid_at(self, p: SpecVec2) -> bool {
        self.spec_kind_at_point(p) == TileCollisionKind::Solid
    }

    /// Create a map of the given grid size with every cell empty.
    pub fn new(width: usize, height: usize, tile_size: i64) -> (r: TileMap)
        requires
            0 < width <= MAX_GRID,
            0 < height <= MAX_GRID,
            FP_ONE <= tile_size <= MAX_DIM,
        ensures
            r.wf(),
            r.spec_width() == width,
            r.spec_height() == height,
            r.spec_tile_size() == tile_size,
            forall|i: int, j: int| r.kind_at(i, j) == TileCollisionKind::Empty,
    {
        proof {
            assert(width * height <= MAX_GRID * MAX_GRID) by (nonlinear_arith)
                requires
                    0 < width <= MAX_GRID,
                    0 < height <= MAX_GRID,
            ;
        }
        let n: usize = width * height;
        let mut tiles: Vec<TileCollisionKind> = Vec::new();
        let mut k: usize = 0;
        while k < n
            invariant
                k <= n,
                tiles@.len() == k,
                forall|t: int|
                    0 <= t < k ==> tiles@[t] == TileCollisionKind::Empty,
            decreases n - k,
        {
            tiles.push(TileCollisionKind::Empty);
            k = k + 1;
        }
        let r = TileMap { tile_size, width, height, tiles };
        proof {
            assert forall|i: int, j: int| r.kind_at(i, j) == TileCollisionKind::Empty by {
                if 0 <= i < r.spec_width() && 0 <= j < r.spec_height() {
                    lemma_cell_index_in_range(i, j, r.spec_width(), r.spec_height());
                }
            }
        }
        r
    }

    /// Set the classification of cell `(i, j)`.
    pub fn set(&mut self, i: usize, j: usize, kind: TileCollisionKind)
        requires
            old(self).wf(),
            i < old(self).spec_width(),
            j < old(self).spec_height(),
        ensures
            final(self).wf(),
            final(self).spec_width() == old(self).spec_width(),
            final(self).spec_height() == old(self).spec_height(),
            final(self).spec_tile_size() == old(self).spec_tile_size(),
            final(self).kind_at(i as int, j as int) == kind,
            forall|a: int, b: int|
                !(a == i && b == j) ==> final(self).kind_at(a, b) == old(self).kind_at(a, b),
    {
        let n: usize = self.tiles.len();
        proof {
            lemma_cell_index_in_range(i as int, j as int, self.spec_width(), self.spec_height());
        }
        let idx: usize = j * self.width + i;
        self.tiles.set(idx, kind);
        proof {
            assert forall|a: int, b: int|
                !(a == i && b == j) implies final(self).kind_at(a, b) == old(self).kind_at(
                a,
                b,
            ) by {
                if 0 <= a < self.spec_width() && 0 <= b < self.spec_height() {
                    lemma_cell_index_in_range(a, b, self.spec_width(), self.spec_height());
                    lemma_cell_index_injective(
                        a,
                        b,
                        i as int,
                        j as int,
                        self.spec_width(),
                        self.spec_height(),
                    );
                }
            }
        }
    }

    /// Read the classification of cell `(i, j)`; cells outside the grid are
    /// empty.
    pub fn get(&self, i: i64, j: i64) -> (r: TileCollisionKind)
        requires
            self.wf(),
        ensures
            r == self.kind_at(i as int, j as int),
    {
        if 0 <= i && i < self.width as i64 && 0 <= j && j < self.height as i64 {
            let n: usize = self.tiles.len();
            proof {
                lemma_cell_index_in_range(i as int, j as int, self.spec_width(), self.spec_height());
            }
            self.tiles[(j as usize) * self.width + (i as usize)]
        } else {
            TileCollisionKind::Empty
        }
    }

    /// Report whether the cell containing `p` is solid. Jump-through cells
    /// never count as solid here.
    pub fn solid_at(&self, p: Vec2) -> (r: bool)
        requires
            self.wf(),
            -2 * MAX_COORD <= p.x <= 2 * MAX_COORD,
            -2 * MAX_COORD <= p.y <= 2 * MAX_COORD,
        ensures
            r == self.spec_solid_at(p@),
    {
        let i = floor_div(p.x, self.tile_size);
        let j = floor_div(p.y, self.tile_size);
        let k = self.get(i, j);
        matches!(k, TileCollisionKind::Solid)
    }

    /// Classify the overlap of `rect` against the map under `filter`:
    /// solid wins over jump-through, which wins over empty.
    pub fn collision_rect(&self, rect: &Rect, filter: TileFilter) -> (r: TileCollisionKind)
        requires
            self.wf(),
            -2 * MAX_COORD <= rect.min.x <= 2 * MAX_COORD,
            -2 * MAX_COORD <= rect.min.y <= 2 * MAX_COORD,
            -2 * MAX_COORD <= rect.max.x <= 2 * MAX_COORD,
            -2 * MAX_COORD <= rect.max.y <= 2 * MAX_COORD,
        ensures
            r == self.spec_collision(rect@, filter),
    {
        let ghost rv = rect@;
        let ts = self.tile_size;
        let lo_i = floor_div(rect.min.x, ts);
        let hi_i = floor_div(rect.max.x - 1, ts);
        let lo_j = floor_div(rect.min.y, ts);
        let hi_j = floor_div(rect.max.y - 1, ts);
        proof {
            assert forall|i: int, j: int| #[trigger]
                self.cell_overlaps(rv, i, j) implies lo_i <= i <= hi_i && lo_j <= j <= hi_j by {
                lemma_mul_lt_iff_div_le(i, rv.max.x, ts as int);
                lemma_mul_gt_iff_div_ge(i, rv.min.x, ts as int);
                lemma_mul_lt_iff_div_le(j, rv.max.y, ts as int);
                lemma_mul_gt_iff_div_ge(j, rv.min.y, ts as int);
            }
            assert forall|i: int, j: int|
                lo_i <= i <= hi_i && lo_j <= j <= hi_j implies self.cell_overlaps(rv, i, j) by {
                lemma_mul_lt_iff_div_le(i, rv.max.x, ts as int);
                lemma_mul_gt_iff_div_ge(i, rv.min.x, ts as int);
                lemma_mul_lt_iff_div_le(j, rv.max.y, ts as int);
                lemma_mul_gt_iff_div_ge(j, rv.min.y, ts as int);
            }
        }
        // Clamp the overlapping cell range to the grid: cells outside it are
        // empty and cannot contribute a solid or jump-through result.
        let i0: usize = clamp_index(lo_i, self.width);
        let i1: usize = clamp_index_end(hi_i, self.width);
        let j0: usize = clamp_index(lo_j, self.height);
        let j1: usize = clamp_index_end(hi_j, self.height);

        let mut found_solid = false;
        let mut found_jt = false;
        let mut j: usize = j0;
        while j < j1
            invariant
                self.wf(),
                j0 <= j <= j1 || j == j0,
                i0 <= self.spec_width(),
                i1 <= self.spec_width(),
                j1 <= self.spec_height(),
                found_solid == block_has(
                    *self,
                    i0 as int,
                    i1 as int,
                    j0 as int,
                    j as int,
                    TileCollisionKind::Solid,
                ),
                found_jt == block_has(
                    *self,
                    i0 as int,
                    i1 as int,
                    j0 as int,
                    j as int,
                    TileCollisionKind::JumpThrough,
                ),
            decreases j1 - j,
        {
            let mut i: usize = i0;
            while i < i1
                invariant
                    self.wf(),
                    i0 <= i <= i1 || i == i0,
                    i0 <= self.spec_width(),
                    i1 <= self.spec_width(),
                    j0 <= j < j1 <= self.spec_height(),
                    found_solid == (block_has(
                        *self,
                        i0 as int,
                        i1 as int,
                        j0 as int,
                        j as int,
                        TileCollisionKind::Solid,
                    ) || block_has(
                        *self,
                        i0 as int,
                        i as int,
                        j as int,
                        j + 1,
                        TileCollisionKind::Solid,
                    )),
                    found_jt == (block_has(
                        *self,
                        i0 as int,
                        i1 as int,
                        j0 as int,
                        j as int,
                        TileCollisionKind::JumpThrough,
                    ) || block_has(
                        *self,
                        i0 as int,
                        i as int,
                        j as int,
                        j + 1,
                        TileCollisionKind::JumpThrough,
                    )),
                decreases i1 - i,
            {
                let k = self.get(i as i64, j as i64);
                match k {
                    TileCollisionKind::Solid => {
                        found_solid = true;
                        proof {
                            assert(self.kind_at(i as int, j as int) == TileCollisionKind::Solid);
                        }
                    },
                    TileCollisionKind::JumpThrough => {
                        found_jt = true;
                        proof {
                            assert(self.kind_at(i as int, j as int)
                                == TileCollisionKind::JumpThrough);
                        }
                    },
                    TileCollisionKind::Empty => {},
                }
                i = i + 1;
            }
            proof {
                lemma_block_extend_row(
                    *self,
                    i0 as int,
                    i1 as int,
                    j0 as int,
                    j as int,
                    TileCollisionKind::Solid,
                );
                lemma_block_extend_row(
                    *self,
                    i0 as int,
                    i1 as int,
                    j0 as int,
                    j as int,
                    TileCollisionKind::JumpThrough,
                );
            }
            j = j + 1;
        }
        proof {
            lemma_block_matches_overlap(
                *self,
                rv,
                lo_i as int,
                hi_i as int,
                lo_j as int,
                hi_j as int,
                i0 as int,
                i1 as int,
                j0 as int,
                j1 as int,
                TileCollisionKind::Solid,
            );
            lemma_block_matches_overlap(
                *self,
                rv,
                lo_i as int,
                hi_i as int,
                lo_j as int,
                hi_j as int,
                i0 as int,
                i1 as int,
                j0 as int,
                j1 as int,
                TileCollisionKind::JumpThrough,
            );
        }
        let admits_solid = matches!(filter, TileFilter::Any | TileFilter::ExcludeJumpThrough);
        let admits_jt = matches!(filter, TileFilter::Any | TileFilter::OnlyJumpThrough);
        if admits_solid && found_solid {
            TileCollisionKind::Solid
        } else if admits_jt && found_jt {
            TileCollisionKind::JumpThrough
        } else {
            TileCollisionKind::Empty
        }
    }
}

/// On a map whose every cell is empty, every shape-overlap query reports
/// empty.
pub proof fn lemma_empty_map_collision(m: TileMap, rect: SpecRect, filter: TileFilter)
    requires
        forall|i: int, j: int| #[trigger] m.kind_at(i, j) == TileCollisionKind::Empty,
    ensures
        m.spec_collision(rect, filter) == TileCollisionKind::Empty,
{
    if m.has_overlap_kind(rect, TileCollisionKind::Solid) {
        let (wi, wj): (int, int) = choose|wi: int, wj: int|
            m.cell_overlaps(rect, wi, wj) && #[trigger] m.kind_at(wi, wj)
                == TileCollisionKind::Solid;
        assert(m.kind_at(wi, wj) == TileCollisionKind::Empty);
    }
    if m.has_overlap_kind(rect, TileCollisionKind::JumpThrough) {
        let (wi, wj): (int, int) = choose|wi: int, wj: int|
            m.cell_overlaps(rect, wi, wj) && #[trigger] m.kind_at(wi, wj)
                == TileCollisionKind::JumpThrough;
        assert(m.kind_at(wi, wj) == TileCollisionKind::Empty);
    }
}

/// Whether some cell of kind `k` lies in the index block
/// `[i0, i1) x [j0, j1)`.
pub open spec fn block_has(m: TileMap, i0: int, i1: int, j0: int, j1: int, k: TileCollisionKind) -> bool {
    exists|i: int, j: int| i0 <= i < i1 && j0 <= j < j1 && #[trigger] m.kind_at(i, j) == k
}

/// Appending a finished row to a block of finished rows covers the block one
/// row taller.
proof fn lemma_block_extend_row(m: TileMap, i0: int, i1: int, j0: int, j: int, k: TileCollisionKind)
    requires
        j0 <= j,
    ensures
        block_has(m, i0, i1, j0, j + 1, k) == (block_has(m, i0, i1, j0, j, k) || block_has(
            m,
            i0,
            i1,
            j,
            j + 1,
            k,
        )),
{
    if block_has(m, i0, i1, j0, j + 1, k) {
        let (wi, wj): (int, int) = choose|wi: int, wj: int|
            i0 <= wi < i1 && j0 <= wj < j + 1 && #[trigger] m.kind_at(wi, wj) == k;
        if wj < j {
            assert(block_has(m, i0, i1, j0, j, k));
        } else {
            assert(block_has(m, i0, i1, j, j + 1, k));
        }
    }
    if block_has(m, i0, i1, j0, j, k) {
        let (wi, wj): (int, int) = choose|wi: int, wj: int|
            i0 <= wi < i1 && j0 <= wj < j && #[trigger] m.kind_at(wi, wj) == k;
        assert(i0 <= wi < i1 && j0 <= wj < j + 1 && m.kind_at(wi, wj) == k);
        assert(block_has(m, i0, i1, j0, j + 1, k));
    }
    if block_has(m, i0, i1, j, j + 1, k) {
        let (wi, wj): (int, int) = choose|wi: int, wj: int|
            i0 <= wi < i1 && j <= wj < j + 1 && #[trigger] m.kind_at(wi, wj) == k;
        assert(block_has(m, i0, i1, j0, j + 1, k));
    }
}

/// The clamped index block finds a non-empty kind exactly when some cell of
/// that kind overlaps the rectangle, provided the unclamped range
/// `[lo_i, hi_i] x [lo_j, hi_j]` is exactly the overlapping cells.
proof fn lemma_block_matches_overlap(
    m: TileMap,
    rect: SpecRect,
    lo_i: int,
    hi_i: int,
    lo_j: int,
    hi_j: int,
    i0: int,
    i1: int,
    j0: int,
    j1: int,
    k: TileCollisionKind,
)
    requires
        k != TileCollisionKind::Empty,
        forall|i: int, j: int| #[trigger]
            m.cell_overlaps(rect, i, j) <==> (lo_i <= i <= hi_i && lo_j <= j <= hi_j),
        i0 == clamp_spec(lo_i, m.spec_width()),
        i1 == clamp_end_spec(hi_i, m.spec_width()),
        j0 == clamp_spec(lo_j, m.spec_height()),
        j1 == clamp_end_spec(hi_j, m.spec_height()),
    ensures
        block_has(m, i0, i1, j0, j1, k) == m.has_overlap_kind(rect, k),
{
    if block_has(m, i0, i1, j0, j1, k) {
        let (wi, wj): (int, int) = choose|wi: int, wj: int|
            i0 <= wi < i1 && j0 <= wj < j1 && #[trigger] m.kind_at(wi, wj) == k;
        assert(m.cell_overlaps(rect, wi, wj));
        assert(m.has_overlap_kind(rect, k));
    }
    if m.has_overlap_kind(rect, k) {
        let (wi, wj): (int, int) = choose|wi: int, wj: int|
            m.cell_overlaps(rect, wi, wj) && #[trigger] m.kind_at(wi, wj) == k;
        // A non-empty cell lies inside the grid.
        assert(0 <= wi < m.spec_width() && 0 <= wj < m.spec_height());
        assert(i0 <= wi < i1 && j0 <= wj < j1);
        assert(block_has(m, i0, i1, j0, j1, k));
    }
}

/// Clamp the lower end of a cell range into `[0, dim]`.
pub open spec fn clamp_spec(v: int, dim: int) -> int {
    if v < 0 {
        0
    } else if v > dim {
        dim
    } else {
        v
    }
}

/// Clamp the upper end of a cell range (inclusive bound `v`) into `[0, dim]`
/// as an exclusive bound.
pub open spec fn clamp_end_spec(v: int, dim: int) -> int {
    if v < 0 {
        0
    } else if v >= dim {
        dim
    } else {
        v + 1
    }
}

fn clamp_index(v: i64, dim: usize) -> (r: usize)
    requires
        dim <= MAX_GRID,
    ensures
        r == clamp_spec(v as int, dim as int),
{
    if v < 0 {
        0
    } else if v > dim as i64 {
        dim
    } else {
        v as usize
    }
}

fn clamp_index_end(v: i64, dim: usize) -> (r: usize)
    requires
        dim <= MAX_GRID,
    ensures
        r == clamp_end_spec(v as int, dim as int),
{
    if v < 0 {
        0
    } else if v >= dim as i64 {
        dim
    } else {
        (v + 1) as usize
    }
}

/// In a grid of the given dimensions, the row-major index of an in-range
/// cell is in range.
proof fn lemma_cell_index_in_range(i: int, j: int, width: int, height: int)
    requires
        0 <= i < width,
        0 <= j < height,
    ensures
        0 <= j * width + i < width * height,
{
    assert(0 <= j * width + i < width * height) by (nonlinear_arith)
        requires
            0 <= i < width,
            0 <= j < height,
    ;
}

/// Row-major indexing is injective on in-range cells.
proof fn lemma_cell_index_injective(a: int, b: int, i: int, j: int, width: int, height: int)
    requires
        0 <= a < width,
        0 <= b < height,
        0 <= i < width,
        0 <= j < height,
        !(a == i && b == j),
    ensures
        b * width + a != j * width + i,
{
    assert(b * width + a != j * width + i) by (nonlinear_arith)
        requires
            0 <= a < width,
            0 <= i < width,
            !(a == i && b == j),
    ;
}

/// For a positive divisor, `n * d < m` exactly when `n <= (m - 1) / d`.
proof fn lemma_mul_lt_iff_div_le(n: int, m: int, d: int)
    requires
        d > 0,
    ensures
        n * d < m <==> n <= (m - 1) / d,
{
    let q = (m - 1) / d;
    let r = (m - 1) % d;
    vstd::arithmetic::div_mod::lemma_fundamental_div_mod(m - 1, d);
    assert(n * d < m <==> n <= q) by (nonlinear_arith)
        requires
            d > 0,
            m - 1 == d * q + r,
            0 <= r < d,
    ;
}

/// For a positive divisor, `(n + 1) * d > m` exactly when `n >= m / d`.
proof fn lemma_mul_gt_iff_div_ge(n: int, m: int, d: int)
    requires
        d > 0,
    ensures
        (n + 1) * d > m <==> n >= m / d,
{
    let q = m / d;
    let r = m % d;
    vstd::arithmetic::div_mod::lemma_fundamental_div_mod(m, d);
    assert((n + 1) * d > m <==> n >= q) by (nonlinear_arith)
        requires
            d > 0,
            m == d * q + r,
            0 <= r < d,
    ;
}

} // verus!
