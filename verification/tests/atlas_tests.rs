use tile_atlas::AtlasEntry;
use tile_atlas::TileError;
use tile_atlas::TilesetMetrics;
use tile_atlas::build_atlas;

fn uv(num: u32, den: u32) -> f32 {
    num as f32 / den as f32
}

#[test]
fn atlas_two_by_two_entry_values() {
    let m = TilesetMetrics { tile_width: 32, tile_height: 32, image_width: 64, image_height: 64 };
    let atlas = build_atlas(&m).unwrap();
    assert_eq!(atlas.len(), 4);

    // Image rows are emitted top-down while texture V runs bottom-up, so
    // entry 0 is the top-left physical tile: the upper half of V space.
    let e0 = &atlas[0];
    assert_eq!(e0.index, 0);
    assert_eq!(uv(e0.uv_left_num, e0.uv_col_den), 0.0);
    assert_eq!(uv(e0.uv_right_num, e0.uv_col_den), 0.5);
    assert_eq!(uv(e0.uv_bottom_num, e0.uv_row_den), 0.5);
    assert_eq!(uv(e0.uv_top_num, e0.uv_row_den), 1.0);

    // The bottom-left physical tile comes in the second emitted row.
    let e2 = &atlas[2];
    assert_eq!(e2.index, 2);
    assert_eq!(uv(e2.uv_left_num, e2.uv_col_den), 0.0);
    assert_eq!(uv(e2.uv_right_num, e2.uv_col_den), 0.5);
    assert_eq!(uv(e2.uv_bottom_num, e2.uv_row_den), 0.0);
    assert_eq!(uv(e2.uv_top_num, e2.uv_row_den), 0.5);

    let e3 = &atlas[3];
    assert_eq!(uv(e3.uv_left_num, e3.uv_col_den), 0.5);
    assert_eq!(uv(e3.uv_right_num, e3.uv_col_den), 1.0);
}

#[test]
fn atlas_entry_count_and_bounds() {
    let m = TilesetMetrics { tile_width: 32, tile_height: 32, image_width: 96, image_height: 64 };
    let atlas = build_atlas(&m).unwrap();
    assert_eq!(atlas.len(), (96 / 32) * (64 / 32));
    for (i, e) in atlas.iter().enumerate() {
        assert_eq!(e.index, i);
        assert!(e.uv_left_num < e.uv_right_num);
        assert!(e.uv_right_num <= e.uv_col_den);
        assert!(e.uv_bottom_num < e.uv_top_num);
        assert!(e.uv_top_num <= e.uv_row_den);
        let left = uv(e.uv_left_num, e.uv_col_den);
        let right = uv(e.uv_right_num, e.uv_col_den);
        let bottom = uv(e.uv_bottom_num, e.uv_row_den);
        let top = uv(e.uv_top_num, e.uv_row_den);
        assert!(0.0 <= left && left < right && right <= 1.0);
        assert!(0.0 <= bottom && bottom < top && top <= 1.0);
    }
}

#[test]
fn atlas_partitions_unit_square() {
    let m = TilesetMetrics { tile_width: 32, tile_height: 32, image_width: 64, image_height: 64 };
    let atlas = build_atlas(&m).unwrap();
    // Every entry spans exactly one cell of the 2-by-2 subdivision, and each
    // of the 4 cells appears exactly once: together they cover the unit
    // square and overlap only along shared edges.
    let mut seen = [[false; 2]; 2];
    for e in &atlas {
        assert_eq!(e.uv_col_den, 2);
        assert_eq!(e.uv_row_den, 2);
        assert_eq!(e.uv_right_num, e.uv_left_num + 1);
        assert_eq!(e.uv_top_num, e.uv_bottom_num + 1);
        let col = e.uv_left_num as usize;
        let row = e.uv_bottom_num as usize;
        assert!(col < 2 && row < 2);
        assert!(!seen[row][col], "cell covered twice");
        seen[row][col] = true;
    }
    assert!(seen.iter().all(|r| r.iter().all(|&c| c)));
}

#[test]
fn atlas_non_divisible_geometry_fails() {
    let m = TilesetMetrics { tile_width: 32, tile_height: 32, image_width: 100, image_height: 64 };
    assert_eq!(build_atlas(&m), Err(TileError::InvalidTilesetGeometry));
}

#[test]
fn atlas_zero_tile_size_fails() {
    let m = TilesetMetrics { tile_width: 0, tile_height: 32, image_width: 64, image_height: 64 };
    assert_eq!(build_atlas(&m), Err(TileError::InvalidTilesetGeometry));
    let m = TilesetMetrics { tile_width: 32, tile_height: 0, image_width: 64, image_height: 64 };
    assert_eq!(build_atlas(&m), Err(TileError::InvalidTilesetGeometry));
}

#[test]
fn atlas_empty_image_fails() {
    let m = TilesetMetrics { tile_width: 32, tile_height: 32, image_width: 0, image_height: 0 };
    assert_eq!(build_atlas(&m), Err(TileError::InvalidTilesetGeometry));
}

#[test]
fn atlas_single_cell_covers_everything() {
    let m = TilesetMetrics { tile_width: 64, tile_height: 64, image_width: 64, image_height: 64 };
    let atlas = build_atlas(&m).unwrap();
    assert_eq!(atlas.len(), 1);
    let e = &atlas[0];
    assert_eq!(uv(e.uv_left_num, e.uv_col_den), 0.0);
    assert_eq!(uv(e.uv_right_num, e.uv_col_den), 1.0);
    assert_eq!(uv(e.uv_bottom_num, e.uv_row_den), 0.0);
    assert_eq!(uv(e.uv_top_num, e.uv_row_den), 1.0);
}

#[test]
fn atlas_build_is_idempotent() {
    let m = TilesetMetrics { tile_width: 16, tile_height: 32, image_width: 128, image_height: 96 };
    let first: Vec<AtlasEntry> = build_atlas(&m).unwrap();
    let second: Vec<AtlasEntry> = build_atlas(&m).unwrap();
    assert_eq!(first, second);
}
