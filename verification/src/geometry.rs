use vstd::prelude::*;

verus! {

/// One tile's rectangle in the texture atlas, held as exact fractions of the
/// tileset image: the horizontal extent runs from `uv_left_num / uv_col_den`
/// to `uv_right_num / uv_col_den`, the vertical extent from
/// `uv_bottom_num / uv_row_den` to `uv_top_num / uv_row_den`, with the
/// texture's vertical axis running bottom-up. A renderer that wants
/// floating-point texture coordinates divides numerator by denominator.
#[derive(Clone, Copy, Debug, PartialEq, Eq, Structural)]
pub struct AtlasEntry {
    /// Position of this entry in the atlas: 0-based, dense, in emission order.
    pub index: usize,
    pub uv_left_num: u32,
    pub uv_right_num: u32,
    /// Denominator of the horizontal fractions: the number of tile columns.
    pub uv_col_den: u32,
    pub uv_bottom_num: u32,
    pub uv_top_num: u32,
    /// Denominator of the vertical fractions: the number of tile rows.
    pub uv_row_den: u32,
}

/// The atlas entry for the cell in column `col` of bottom-up texture row
/// `row`, in a `columns`-by-`rows` subdivision of the unit square.
pub open spec fn uv_entry(index: int, col: int, row: int, columns: int, rows: int) -> AtlasEntry {
    AtlasEntry {
        index: index as usize,
        uv_left_num: col as u32,
        uv_right_num: (col + 1) as u32,
        uv_col_den: columns as u32,
        uv_bottom_num: row as u32,
        uv_top_num: (row + 1) as u32,
        uv_row_den: rows as u32,
    }
}

/// Shared cell-to-UV mapping: builds the rectangle of one atlas cell.
pub fn cell_uv_entry(index: usize, col: u32, row: u32, columns: u32, rows: u32) -> (e: AtlasEntry)
    requires
        col < columns,
        row < rows,
    ensures
        e == uv_entry(index as int, col as int, row as int, columns as int, rows as int),
{
    AtlasEntry {
        index,
        uv_left_num: col,
        uv_right_num: col + 1,
        uv_col_den: columns,
        uv_bottom_num: row,
        uv_top_num: row + 1,
        uv_row_den: rows,
    }
}

/// Shared cell-to-world mapping: the world X of grid column `col`.
pub fn cell_world_x(col: usize, tile_width: u32) -> (x: i64)
    requires
        col as int * tile_width as int <= i64::MAX,
    ensures
        x as int == col as int * tile_width as int,
{
    ((col as u64) * (tile_width as u64)) as i64
}

/// Shared cell-to-world mapping with the vertical flip: grid row 0 is the
/// topmost map row, so it lands at the full screen height, and each later
/// row lies one tile height lower.
pub fn cell_world_y(row: usize, tile_height: u32, screen_height: u32) -> (y: i64)
    requires
        row as int * tile_height as int <= i64::MAX,
    ensures
        y as int == screen_height as int - row as int * tile_height as int,
{
    (screen_height as i64) - (((row as u64) * (tile_height as u64)) as i64)
}

} // verus!
