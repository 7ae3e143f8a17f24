// Geometry and partitioning: exact positions, distinctness, and the
// row-major decomposition shared by slots and sub-images.

use jigsaw::layout::BoardConfig;
use jigsaw::layout::pick_radius_sq;
use jigsaw::layout::slot_position;
use jigsaw::layout::slot_positions;
use jigsaw::layout::snap_radius_sq;
use jigsaw::partition::partition_rects;
use jigsaw::pieces::TotalPieces;

fn six_piece_board() -> BoardConfig {
    // A 3 x 2 grid of 240-unit cells: a 720 x 480 board.
    BoardConfig::new(3, 2, 240)
}

#[test]
fn piece_counts_per_variant() {
    let cases = [
        (TotalPieces::P6, 1u8, 3u8, 2u8, 6u8),
        (TotalPieces::P24, 2, 6, 4, 24),
        (TotalPieces::P54, 3, 9, 6, 54),
        (TotalPieces::P96, 4, 12, 8, 96),
    ];
    for (pieces, factor, width, height, value) in cases {
        assert_eq!(pieces.get_factor(), factor);
        assert_eq!(pieces.get_width_count(), width);
        assert_eq!(pieces.get_height_count(), height);
        assert_eq!(pieces.get_value(), value);
        assert_eq!(pieces.get_value(), pieces.get_width_count() * pieces.get_height_count());
    }
}

#[test]
fn slot_positions_of_six_piece_board() {
    let cfg = six_piece_board();
    assert_eq!(cfg.piece_count(), 6);
    // Index 0 is the visual top left; the vertical axis grows upward, so
    // the top row has the larger ordinate.
    assert_eq!(slot_position(&cfg, 0), (-240, 120));
    assert_eq!(slot_position(&cfg, 1), (0, 120));
    assert_eq!(slot_position(&cfg, 2), (240, 120));
    assert_eq!(slot_position(&cfg, 3), (-240, -120));
    assert_eq!(slot_position(&cfg, 4), (0, -120));
    assert_eq!(slot_position(&cfg, 5), (240, -120));
}

#[test]
fn slot_positions_listed_in_order() {
    let cfg = six_piece_board();
    let all = slot_positions(&cfg);
    assert_eq!(all.len(), 6);
    for (i, pos) in all.iter().enumerate() {
        assert_eq!(*pos, slot_position(&cfg, i));
    }
}

#[test]
fn slot_positions_all_distinct() {
    let cfg = BoardConfig::new(12, 8, 80);
    let all = slot_positions(&cfg);
    assert_eq!(all.len(), 96);
    for i in 0..all.len() {
        for j in 0..all.len() {
            if i != j {
                assert_ne!(all[i], all[j]);
            }
        }
    }
}

#[test]
fn radii_derived_from_cell_side() {
    assert_eq!(pick_radius_sq(240), 28800);
    assert_eq!(snap_radius_sq(240), 7200);
    assert_eq!(pick_radius_sq(80), 3200);
    assert_eq!(snap_radius_sq(80), 800);
}

#[test]
fn partition_rects_of_six_piece_image() {
    // A 600 x 400 picture cut 3 x 2: six 200 x 200 cells, row-major, rows
    // top to bottom.
    let rects = partition_rects(600, 400, 3, 2);
    assert_eq!(rects.len(), 6);
    let expected = [
        (0, 0),
        (200, 0),
        (400, 0),
        (0, 200),
        (200, 200),
        (400, 200),
    ];
    for (i, rect) in rects.iter().enumerate() {
        assert_eq!((rect.x, rect.y), expected[i]);
        assert_eq!((rect.width, rect.height), (200, 200));
    }
}

#[test]
fn partition_rects_drop_remainder_pixels() {
    // 601 x 401 does not divide evenly; the remainder stays at the right
    // and bottom edges.
    let rects = partition_rects(601, 401, 3, 2);
    assert_eq!(rects.len(), 6);
    assert_eq!((rects[5].x, rects[5].y), (400, 200));
    assert_eq!((rects[5].width, rects[5].height), (200, 200));
}

#[test]
fn partition_and_layout_share_the_cell_decomposition() {
    // Sub-image i is cut from pixel cell (i % 3, i / 3); slot i must be
    // the board cell with the same column and the same top-counted row.
    let cfg = six_piece_board();
    let rects = partition_rects(600, 400, 3, 2);
    for i in 0..6usize {
        let col = i % 3;
        let row_from_top = i / 3;
        assert_eq!(rects[i].x, 200 * col as u32);
        assert_eq!(rects[i].y, 200 * row_from_top as u32);
        let expected_x = 120 + 240 * col as i64 - 360;
        let expected_y = 120 + 240 * (1 - row_from_top as i64) - 240;
        assert_eq!(slot_position(&cfg, i), (expected_x, expected_y));
    }
}
