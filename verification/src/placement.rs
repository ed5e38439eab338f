use vstd::prelude::*;
use crate::error::TileError;
use crate::geometry::AtlasEntry;
use crate::geometry::cell_world_x;
use crate::geometry::cell_world_y;

verus! {

/// A row-major grid of tile ids, one per map cell: `0` means the cell is
/// empty, `k > 0` refers to atlas entry `k - 1`. Row 0 is the topmost map
/// row.
pub struct TileGrid {
    pub cells: Vec<Vec<u32>>,
}

impl View for TileGrid {
    type V = Seq<Seq<u32>>;

    open spec fn view(&self) -> Seq<Seq<u32>> {
        Seq::new(self.cells@.len(), |i: int| self.cells@[i]@)
    }
}

impl TileGrid {
    /// Number of grid rows.
    pub open spec fn row_count(self) -> int {
        self@.len() as int
    }

    /// Number of grid columns, read from the first row.
    pub open spec fn col_count(self) -> int {
        self@[0].len() as int
    }

    /// The grid has at least one row and one column, and every row has the
    /// same length.
    pub open spec fn well_formed(self) -> bool {
        &&& self.row_count() > 0
        &&& self.col_count() > 0
        &&& forall|y: int| 0 <= y < self@.len() ==> self@[y].len() == self.col_count()
    }

    /// Some cell holds an id that refers past the end of an atlas of
    /// `atlas_len` entries: id `k > 0` needs entry `k - 1`, so any id above
    /// `atlas_len` is out of range.
    pub open spec fn refers_past(self, atlas_len: int) -> bool {
        exists|y: int, x: int|
            0 <= y < self@.len() && 0 <= x < self@[y].len() && self@[y][x] > atlas_len
    }

    /// Checks the shape of the grid: at least one row and one column, all
    /// rows of equal length.
    pub fn is_well_formed(&self) -> (b: bool)
        ensures
            b == self.well_formed(),
    {
        let nrows = self.cells.len();
        if nrows == 0 {
            return false;
        }
        let ncols = self.cells[0].len();
        if ncols == 0 {
            return false;
        }
        let mut y: usize = 1;
        while y < nrows
            invariant
                1 <= y <= nrows,
                nrows == self@.len(),
                ncols as int == self.col_count(),
                ncols > 0,
                forall|j: int| 0 <= j < y ==> self@[j].len() == self.col_count(),
            decreases nrows - y,
        {
            if self.cells[y].len() != ncols {
                proof {
                    assert(self@[y as int].len() != self.col_count());
                    assert(!self.well_formed());
                }
                return false;
            }
            y += 1;
        }
        true
    }
}

/// One placed sprite: which atlas entry to draw, and where. `x` and `y` are
/// world units (the same units as tile size and screen height); `z` is the
/// caller-supplied depth, copied unchanged to every placement of the call.
#[derive(Clone, Copy, Debug)]
pub struct Placement<Z> {
    pub sprite_index: usize,
    pub x: i64,
    pub y: i64,
    pub z: Z,
}

/// The placement one non-empty cell yields: grid column `x` of grid row `y`
/// holding id `id`, with the vertical flip from map rows (top-down) to world
/// Y (bottom-up).
pub open spec fn placement_at<Z>(y: int, x: int, id: int, tw: int, th: int, sh: int, z: Z) -> Placement<Z> {
    Placement {
        sprite_index: (id - 1) as usize,
        x: (x * tw) as i64,
        y: (sh - y * th) as i64,
        z,
    }
}

/// Placements of one grid row, left to right; empty cells yield nothing.
pub open spec fn row_placements<Z>(row: Seq<u32>, y: int, tw: int, th: int, sh: int, z: Z) -> Seq<Placement<Z>>
    decreases row.len(),
{
    if row.len() == 0 {
        Seq::empty()
    } else {
        let init = row_placements(row.drop_last(), y, tw, th, sh, z);
        if row.last() == 0 {
            init
        } else {
            init.push(placement_at(y, row.len() - 1, row.last() as int, tw, th, sh, z))
        }
    }
}

/// Placements of a whole grid, row-major: all placements of one row come
/// before any placement of the next, in increasing column order within a row.
pub open spec fn grid_placements<Z>(cells: Seq<Seq<u32>>, tw: int, th: int, sh: int, z: Z) -> Seq<Placement<Z>>
    decreases cells.len(),
{
    if cells.len() == 0 {
        Seq::empty()
    } else {
        grid_placements(cells.drop_last(), tw, th, sh, z)
            + row_placements(cells.last(), cells.len() - 1, tw, th, sh, z)
    }
}

/// Number of non-empty cells in one grid row.
pub open spec fn row_nonzero_count(row: Seq<u32>) -> int
    decreases row.len(),
{
    if row.len() == 0 {
        0
    } else {
        row_nonzero_count(row.drop_last()) + if row.last() == 0 { 0int } else { 1int }
    }
}

/// Number of non-empty cells in the whole grid.
pub open spec fn grid_nonzero_count(cells: Seq<Seq<u32>>) -> int
    decreases cells.len(),
{
    if cells.len() == 0 {
        0
    } else {
        grid_nonzero_count(cells.drop_last()) + row_nonzero_count(cells.last())
    }
}

/// One row yields exactly one placement per non-empty cell; an empty cell
/// yields none.
pub proof fn lemma_row_placement_count<Z>(row: Seq<u32>, y: int, tw: int, th: int, sh: int, z: Z)
    ensures
        row_placements(row, y, tw, th, sh, z).len() == row_nonzero_count(row),
    decreases row.len(),
{
    if row.len() > 0 {
        lemma_row_placement_count(row.drop_last(), y, tw, th, sh, z);
    }
}

/// A layer yields exactly as many placements as its grid has non-zero cells:
/// cell value 0 never produces a placement, every other cell produces one.
pub proof fn lemma_placement_count<Z>(cells: Seq<Seq<u32>>, tw: int, th: int, sh: int, z: Z)
    ensures
        grid_placements(cells, tw, th, sh, z).len() == grid_nonzero_count(cells),
    decreases cells.len(),
{
    if cells.len() > 0 {
        lemma_placement_count(cells.drop_last(), tw, th, sh, z);
        lemma_row_placement_count(cells.last(), cells.len() - 1, tw, th, sh, z);
    }
}

/// Walks the grid row-major (rows outer, columns inner) and emits one
/// placement per non-empty cell: sprite index `id - 1`, world X
/// `column * tile_width`, world Y `screen_height - row * tile_height` (the
/// vertical flip: map row 0 is the top, world Y grows upward), and the given
/// depth `z`. Fails, returning no partial result, on a misshapen grid or on a
/// tile id the atlas does not cover.
pub fn place_layer<Z: Copy>(
    grid: &TileGrid,
    atlas: &Vec<AtlasEntry>,
    tile_width: u32,
    tile_height: u32,
    screen_height: u32,
    z: Z,
) -> (r: Result<Vec<Placement<Z>>, TileError>)
    requires
        forall|j: int| 0 <= j < grid@.len()
            ==> #[trigger] grid@[j].len() * tile_width as int <= i64::MAX,
        grid@.len() * tile_height as int <= i64::MAX,
    ensures
        r == Err::<Vec<Placement<Z>>, TileError>(TileError::MalformedGrid) <==> !grid.well_formed(),
        r == Err::<Vec<Placement<Z>>, TileError>(TileError::AtlasIndexOutOfRange)
            <==> grid.well_formed() && grid.refers_past(atlas@.len() as int),
        r is Ok <==> grid.well_formed() && !grid.refers_past(atlas@.len() as int),
        r matches Ok(ps) ==> ps@ == grid_placements(
            grid@, tile_width as int, tile_height as int, screen_height as int, z),
        r matches Ok(ps) ==> ps@.len() == grid_nonzero_count(grid@),
{
    proof {
        lemma_placement_count(
            grid@, tile_width as int, tile_height as int, screen_height as int, z);
    }
    if !grid.is_well_formed() {
        return Err(TileError::MalformedGrid);
    }
    let nrows = grid.cells.len();
    let ncols = grid.cells[0].len();
    let mut out: Vec<Placement<Z>> = Vec::new();
    let mut y: usize = 0;
    while y < nrows
        invariant
            y <= nrows,
            grid.well_formed(),
            nrows == grid@.len(),
            ncols as int == grid.col_count(),
            forall|j: int| 0 <= j < grid@.len() ==> #[trigger] grid@[j].len() == ncols as int,
            ncols as int * tile_width as int <= i64::MAX,
            nrows as int * tile_height as int <= i64::MAX,
            forall|j: int, i: int| 0 <= j < y && 0 <= i < grid@[j].len()
                ==> #[trigger] grid@[j][i] <= atlas@.len(),
            out@ == grid_placements(
                grid@.take(y as int), tile_width as int, tile_height as int,
                screen_height as int, z),
        decreases nrows - y,
    {
        let row = &grid.cells[y];
        proof {
            assert(row@ == grid@[y as int]);
        }
        let mut x: usize = 0;
        while x < ncols
            invariant
                x <= ncols,
                y < nrows,
                grid.well_formed(),
                nrows == grid@.len(),
                ncols as int == grid.col_count(),
                row@ == grid@[y as int],
                row@.len() == ncols,
                ncols as int * tile_width as int <= i64::MAX,
                nrows as int * tile_height as int <= i64::MAX,
                forall|j: int, i: int| 0 <= j < y && 0 <= i < grid@[j].len()
                    ==> #[trigger] grid@[j][i] <= atlas@.len(),
                forall|i: int| 0 <= i < x ==> #[trigger] row@[i] <= atlas@.len(),
                out@ == grid_placements(
                    grid@.take(y as int), tile_width as int, tile_height as int,
                    screen_height as int, z)
                    + row_placements(
                        row@.take(x as int), y as int, tile_width as int,
                        tile_height as int, screen_height as int, z),
            decreases ncols - x,
        {
            let id = row[x];
            if id != 0 {
                if id as usize > atlas.len() {
                    proof {
                        assert(grid.refers_past(atlas@.len() as int)) by {
                            assert(0 <= y < grid@.len() && 0 <= x < grid@[y as int].len()
                                && grid@[y as int][x as int] > atlas@.len());
                        }
                    }
                    return Err(TileError::AtlasIndexOutOfRange);
                }
                proof {
                    assert(x as int * tile_width as int <= ncols as int * tile_width as int)
                        by (nonlinear_arith)
                        requires
                            x as int <= ncols as int,
                            tile_width as int >= 0,
                    ;
                    assert(y as int * tile_height as int <= nrows as int * tile_height as int)
                        by (nonlinear_arith)
                        requires
                            y as int <= nrows as int,
                            tile_height as int >= 0,
                    ;
                }
                let wx = cell_world_x(x, tile_width);
                let wy = cell_world_y(y, tile_height, screen_height);
                let p = Placement { sprite_index: (id - 1) as usize, x: wx, y: wy, z };
                out.push(p);
            }
            proof {
                let tw = tile_width as int;
                let th = tile_height as int;
                let sh = screen_height as int;
                let t1 = row@.take(x as int + 1);
                assert(t1.drop_last() =~= row@.take(x as int));
                assert(t1.last() == row@[x as int]);
                if row@[x as int] == 0 {
                    assert(row_placements(t1, y as int, tw, th, sh, z)
                        == row_placements(row@.take(x as int), y as int, tw, th, sh, z));
                } else {
                    assert(row_placements(t1, y as int, tw, th, sh, z)
                        == row_placements(row@.take(x as int), y as int, tw, th, sh, z)
                            .push(placement_at(y as int, x as int, row@[x as int] as int,
                                tw, th, sh, z)));
                    assert(out@ =~= grid_placements(grid@.take(y as int), tw, th, sh, z)
                        + row_placements(t1, y as int, tw, th, sh, z));
                }
            }
            x += 1;
        }
        proof {
            let tw = tile_width as int;
            let th = tile_height as int;
            let sh = screen_height as int;
            assert(row@.take(ncols as int) =~= row@);
            let t2 = grid@.take(y as int + 1);
            assert(t2.drop_last() =~= grid@.take(y as int));
            assert(t2.last() == grid@[y as int]);
            assert(grid_placements(t2, tw, th, sh, z)
                == grid_placements(grid@.take(y as int), tw, th, sh, z)
                    + row_placements(grid@[y as int], y as int, tw, th, sh, z));
        }
        y += 1;
    }
    proof {
        assert(grid@.take(nrows as int) =~= grid@);
    }
    Ok(out)
}

} // verus!
