//! Converts a tile-grid map description into renderable sprite data: slices a
//! tileset image into a normalized texture atlas, and turns a per-cell grid of
//! tile ids into world-space placements with the vertical flip between map
//! rows (top-down) and render coordinates (bottom-up).

pub mod atlas;
pub mod error;
pub mod geometry;
pub mod placement;

pub use atlas::TilesetMetrics;
pub use atlas::build_atlas;
pub use error::TileError;
pub use geometry::AtlasEntry;
pub use placement::Placement;
pub use placement::TileGrid;
pub use placement::place_layer;
