use vstd::prelude::*;

verus! {

/// Why a map-to-sprite conversion was rejected. All of these mean the input
/// data is malformed; none is transient, and no partial result accompanies
/// them.
#[derive(Clone, Copy, Debug, PartialEq, Eq, Structural)]
pub enum TileError {
    /// Tile size is zero, the image is empty, or the image dimensions are not
    /// evenly divisible by the tile size.
    InvalidTilesetGeometry,
    /// Grid rows differ in length, or the grid has no rows or no columns.
    MalformedGrid,
    /// A tile id in the grid refers past the end of the atlas.
    AtlasIndexOutOfRange,
}

} // verus!
