use vstd::prelude::*;
use vstd::arithmetic::div_mod::lemma_div_nonincreasing;
use vstd::arithmetic::div_mod::lemma_div_pos_is_pos;
use vstd::arithmetic::div_mod::lemma_fundamental_div_mod;
use vstd::arithmetic::div_mod::lemma_fundamental_div_mod_converse;
use vstd::arithmetic::div_mod::lemma_mod_division_less_than_divisor;
use crate::error::TileError;
use crate::geometry::AtlasEntry;
use crate::geometry::cell_uv_entry;
use crate::geometry::uv_entry;

verus! {

/// Pixel dimensions of a tileset image together with the fixed size of one
/// tile cell.
#[derive(Clone, Copy, Debug, PartialEq, Eq, Structural)]
pub struct TilesetMetrics {
    pub tile_width: u32,
    pub tile_height: u32,
    pub image_width: u32,
    pub image_height: u32,
}

impl TilesetMetrics {
    /// The metrics describe a usable tileset: everything positive, and the
    /// image divides evenly into tile cells in both directions.
    pub open spec fn valid(self) -> bool {
        &&& self.tile_width > 0
        &&& self.tile_height > 0
        &&& self.image_width > 0
        &&& self.image_height > 0
        &&& self.image_width as int % self.tile_width as int == 0
        &&& self.image_height as int % self.tile_height as int == 0
    }

    /// Number of tile columns in the image.
    pub open spec fn columns(self) -> int {
        self.image_width as int / self.tile_width as int
    }

    /// Number of tile rows in the image.
    pub open spec fn rows(self) -> int {
        self.image_height as int / self.tile_height as int
    }
}

/// The `i`-th atlas entry of a `columns`-by-`rows` tileset. The image's rows
/// are emitted top-down, left to right within a row; texture V runs
/// bottom-up, so the bottom-up texture row index counts down: entry `i`
/// covers column `i % columns` of bottom-up row `rows - 1 - i / columns`.
pub open spec fn atlas_entry_at(columns: int, rows: int, i: int) -> AtlasEntry {
    uv_entry(i, i % columns, rows - 1 - i / columns, columns, rows)
}

/// The atlas a valid tileset yields: one entry per tile cell, in emission
/// order. The order depends on the tileset geometry alone, never on any map.
pub open spec fn atlas_spec(m: TilesetMetrics) -> Seq<AtlasEntry> {
    Seq::new(
        (m.rows() * m.columns()) as nat,
        |i: int| atlas_entry_at(m.columns(), m.rows(), i),
    )
}

/// Slices a tileset image into a normalized texture atlas: one UV rectangle
/// per tile cell. The image's rows are walked top-down, columns left to
/// right; since texture V runs bottom-up, the bottom-up texture row index
/// counts down from `rows - 1` to `0`. That reversal is what makes tile id
/// `k`, assigned top-down by the map file, land on entry `k - 1` without a
/// second flip at placement time.
pub fn build_atlas(metrics: &TilesetMetrics) -> (r: Result<Vec<AtlasEntry>, TileError>)
    ensures
        r is Ok <==> metrics.valid(),
        r is Err ==> r == Err::<Vec<AtlasEntry>, TileError>(TileError::InvalidTilesetGeometry),
        r matches Ok(atlas) ==> atlas@ == atlas_spec(*metrics),
        r matches Ok(atlas) ==> atlas@.len() == metrics.rows() * metrics.columns(),
{
    let m = *metrics;
    if m.tile_width == 0 || m.tile_height == 0 || m.image_width == 0 || m.image_height == 0
        || m.image_width % m.tile_width != 0 || m.image_height % m.tile_height != 0
    {
        return Err(TileError::InvalidTilesetGeometry);
    }
    let columns: u32 = m.image_width / m.tile_width;
    let rows: u32 = m.image_height / m.tile_height;
    let mut entries: Vec<AtlasEntry> = Vec::new();
    let mut r: u32 = rows;
    while r > 0
        invariant
            r <= rows,
            columns as int == m.columns(),
            rows as int == m.rows(),
            entries@.len() == (rows as int - r as int) * (columns as int),
            forall|i: int| 0 <= i < entries@.len()
                ==> entries@[i] == atlas_entry_at(columns as int, rows as int, i),
        decreases r,
    {
        r = r - 1;
        proof {
            assert((rows as int - (r as int + 1)) * (columns as int)
                == (rows as int - 1 - r as int) * (columns as int));
        }
        let mut c: u32 = 0;
        while c < columns
            invariant
                c <= columns,
                r < rows,
                columns as int == m.columns(),
                rows as int == m.rows(),
                entries@.len() == (rows as int - 1 - r as int) * (columns as int) + c as int,
                forall|i: int| 0 <= i < entries@.len()
                    ==> entries@[i] == atlas_entry_at(columns as int, rows as int, i),
            decreases columns as int - c as int,
        {
            let idx = entries.len();
            let e = cell_uv_entry(idx, c, r, columns, rows);
            proof {
                lemma_fundamental_div_mod_converse(
                    idx as int,
                    columns as int,
                    rows as int - 1 - r as int,
                    c as int,
                );
            }
            entries.push(e);
            c = c + 1;
        }
        proof {
            assert((rows as int - 1 - r as int) * (columns as int) + columns as int
                == (rows as int - r as int) * (columns as int)) by (nonlinear_arith);
        }
    }
    proof {
        assert(entries@ =~= atlas_spec(m));
    }
    Ok(entries)
}

/// A valid tileset has at least one tile column and one tile row, and no
/// more of either than the image has pixels.
pub proof fn lemma_grid_shape(m: TilesetMetrics)
    requires
        m.valid(),
    ensures
        1 <= m.columns() <= m.image_width,
        1 <= m.rows() <= m.image_height,
        m.columns() * m.rows() >= 1,
{
    let iw = m.image_width as int;
    let tw = m.tile_width as int;
    let ih = m.image_height as int;
    let th = m.tile_height as int;
    lemma_div_pos_is_pos(iw, tw);
    lemma_div_nonincreasing(iw, tw);
    lemma_div_pos_is_pos(ih, th);
    lemma_div_nonincreasing(ih, th);
    lemma_fundamental_div_mod(iw, tw);
    assert(iw == tw * (iw / tw));
    assert(iw / tw >= 1) by (nonlinear_arith)
        requires
            iw == tw * (iw / tw),
            iw > 0,
            tw > 0,
            iw / tw >= 0,
    ;
    lemma_fundamental_div_mod(ih, th);
    assert(ih / th >= 1) by (nonlinear_arith)
        requires
            ih == th * (ih / th),
            ih > 0,
            th > 0,
            ih / th >= 0,
    ;
    assert(m.columns() * m.rows() >= 1) by (nonlinear_arith)
        requires
            m.columns() >= 1,
            m.rows() >= 1,
    ;
}

/// Exactly which cell the `i`-th atlas entry of a valid tileset covers:
/// column `i % columns`, bottom-up row `rows - 1 - i / columns`, with a span
/// of one cell in each direction.
pub proof fn lemma_atlas_entry_fields(m: TilesetMetrics, i: int)
    requires
        m.valid(),
        0 <= i < atlas_spec(m).len(),
    ensures
        i <= usize::MAX ==> atlas_spec(m)[i].index == i,
        atlas_spec(m)[i].uv_col_den == m.columns(),
        atlas_spec(m)[i].uv_row_den == m.rows(),
        atlas_spec(m)[i].uv_left_num == i % m.columns(),
        atlas_spec(m)[i].uv_right_num == i % m.columns() + 1,
        atlas_spec(m)[i].uv_bottom_num == m.rows() - 1 - i / m.columns(),
        atlas_spec(m)[i].uv_top_num == m.rows() - i / m.columns(),
        0 <= i % m.columns() < m.columns(),
        0 <= i / m.columns() < m.rows(),
{
    let cols = m.columns();
    let rows = m.rows();
    lemma_grid_shape(m);
    assert(atlas_spec(m).len() == (rows * cols) as nat);
    assert(i < rows * cols);
    lemma_mod_division_less_than_divisor(i, cols);
    lemma_div_pos_is_pos(i, cols);
    lemma_fundamental_div_mod(i, cols);
    assert(i / cols < rows) by (nonlinear_arith)
        requires
            i == cols * (i / cols) + i % cols,
            0 <= i % cols < cols,
            i < rows * cols,
            cols > 0,
            i / cols >= 0,
    ;
}

/// Every atlas entry of a valid tileset is a proper sub-rectangle of the
/// unit square: as fractions, `0 <= left < right <= 1` and
/// `0 <= bottom < top <= 1`, and its stored index is its position.
pub proof fn lemma_atlas_entry_bounds(m: TilesetMetrics, i: int)
    requires
        m.valid(),
        0 <= i < atlas_spec(m).len(),
    ensures
        i <= usize::MAX ==> atlas_spec(m)[i].index == i,
        atlas_spec(m)[i].uv_col_den > 0,
        atlas_spec(m)[i].uv_row_den > 0,
        atlas_spec(m)[i].uv_left_num < atlas_spec(m)[i].uv_right_num,
        atlas_spec(m)[i].uv_right_num <= atlas_spec(m)[i].uv_col_den,
        atlas_spec(m)[i].uv_bottom_num < atlas_spec(m)[i].uv_top_num,
        atlas_spec(m)[i].uv_top_num <= atlas_spec(m)[i].uv_row_den,
{
    lemma_atlas_entry_fields(m, i);
}

/// Some atlas entry's rectangle is the cell in column `col` of bottom-up row
/// `row` of the tileset's subdivision of the unit square.
pub open spec fn covers_cell(m: TilesetMetrics, row: int, col: int) -> bool {
    exists|i: int|
        0 <= i < atlas_spec(m).len()
        && (#[trigger] atlas_spec(m)[i]).uv_left_num == col
        && atlas_spec(m)[i].uv_bottom_num == row
}

/// The atlas rectangles of a valid tileset partition the unit square: each
/// entry is exactly one cell of the `columns`-by-`rows` subdivision (a unit
/// span in each direction), every such cell is covered by some entry, and no
/// two entries cover the same cell. The cells of that subdivision cover
/// `[0,1] x [0,1]` and meet only along shared edges, so the same holds of the
/// atlas rectangles.
pub proof fn lemma_atlas_partitions_unit_square(m: TilesetMetrics)
    requires
        m.valid(),
    ensures
        forall|i: int| 0 <= i < atlas_spec(m).len() ==> {
            let e = #[trigger] atlas_spec(m)[i];
            &&& e.uv_col_den == m.columns()
            &&& e.uv_row_den == m.rows()
            &&& e.uv_right_num == e.uv_left_num + 1
            &&& e.uv_top_num == e.uv_bottom_num + 1
            &&& e.uv_left_num < m.columns()
            &&& e.uv_bottom_num < m.rows()
        },
        forall|row: int, col: int|
            0 <= row < m.rows() && 0 <= col < m.columns()
                ==> #[trigger] covers_cell(m, row, col),
        forall|i: int, j: int|
            0 <= i < atlas_spec(m).len() && 0 <= j < atlas_spec(m).len() && i != j
                ==> !((#[trigger] atlas_spec(m)[i]).uv_left_num
                        == (#[trigger] atlas_spec(m)[j]).uv_left_num
                    && atlas_spec(m)[i].uv_bottom_num == atlas_spec(m)[j].uv_bottom_num),
{
    let cols = m.columns();
    let rows = m.rows();
    lemma_grid_shape(m);
    assert forall|i: int| 0 <= i < atlas_spec(m).len() implies {
        let e = #[trigger] atlas_spec(m)[i];
        &&& e.uv_col_den == cols
        &&& e.uv_row_den == rows
        &&& e.uv_right_num == e.uv_left_num + 1
        &&& e.uv_top_num == e.uv_bottom_num + 1
        &&& e.uv_left_num < cols
        &&& e.uv_bottom_num < rows
    } by {
        lemma_atlas_entry_fields(m, i);
    }
    assert forall|row: int, col: int|
        0 <= row < rows && 0 <= col < cols implies #[trigger] covers_cell(m, row, col) by {
        let i = (rows - 1 - row) * cols + col;
        assert(0 <= i < rows * cols) by (nonlinear_arith)
            requires
                i == (rows - 1 - row) * cols + col,
                0 <= row < rows,
                0 <= col < cols,
        ;
        lemma_fundamental_div_mod_converse(i, cols, rows - 1 - row, col);
        lemma_atlas_entry_fields(m, i);
        assert(0 <= i < atlas_spec(m).len()
            && atlas_spec(m)[i].uv_left_num == col
            && atlas_spec(m)[i].uv_bottom_num == row);
    }
    assert forall|i: int, j: int|
        0 <= i < atlas_spec(m).len() && 0 <= j < atlas_spec(m).len() && i != j
            implies !((#[trigger] atlas_spec(m)[i]).uv_left_num
                    == (#[trigger] atlas_spec(m)[j]).uv_left_num
                && atlas_spec(m)[i].uv_bottom_num == atlas_spec(m)[j].uv_bottom_num) by {
        lemma_atlas_entry_fields(m, i);
        lemma_atlas_entry_fields(m, j);
        if atlas_spec(m)[i].uv_left_num == atlas_spec(m)[j].uv_left_num
            && atlas_spec(m)[i].uv_bottom_num == atlas_spec(m)[j].uv_bottom_num {
            assert(i % cols == j % cols);
            assert(i / cols == j / cols);
            lemma_fundamental_div_mod(i, cols);
            lemma_fundamental_div_mod(j, cols);
            assert(i == j);
        }
    }
}

/// Idempotence: the atlas is a function of the tileset metrics alone, with
/// no hidden state, so any two successful builds from equal metrics yield
/// identical atlases. `build_atlas` ensures its result equals
/// `atlas_spec(metrics)`, and this pins any two such results to each other.
pub proof fn lemma_build_atlas_idempotent(
    m1: TilesetMetrics,
    m2: TilesetMetrics,
    a1: Seq<AtlasEntry>,
    a2: Seq<AtlasEntry>,
)
    requires
        m1 == m2,
        a1 == atlas_spec(m1),
        a2 == atlas_spec(m2),
    ensures
        a1 == a2,
{
}

} // verus!
