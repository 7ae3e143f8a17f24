// The matching engine: pick, drag, drop, snapping, hints, assignment
// bookkeeping, and the one-shot completion signal.

use jigsaw::layout::BoardConfig;
use jigsaw::layout::slot_position;
use jigsaw::puzzle::ClickOutcome;
use jigsaw::puzzle::CompletionDetector;
use jigsaw::puzzle::PuzzleState;

// A 3 x 2 board of 240-unit cells: pick radius squared 28800 (radius about
// 169.7), snap threshold squared 7200 (threshold about 84.85).
fn six_piece_game() -> PuzzleState {
    let cfg = BoardConfig::new(3, 2, 240);
    let scatter = scattered_far_apart(6);
    PuzzleState::from_config(&cfg, &scatter)
}

// Tiles spaced widely, away from the board, so a pick at one tile's
// position can never hit another tile.
fn scattered_far_apart(n: usize) -> Vec<(i64, i64)> {
    let mut scatter = Vec::new();
    for i in 0..n {
        scatter.push((2000 + 400 * i as i64, 2000));
    }
    scatter
}

// Picks tile `t` where it sits and drops it right on slot `s`'s center.
fn place_tile(game: &mut PuzzleState, t: usize, s: usize) {
    let cfg = BoardConfig::new(3, 2, 240);
    let (tx, ty) = game.tile_position(t);
    assert_eq!(game.pick(tx, ty), Some(t));
    let (sx, sy) = slot_position(&cfg, s);
    game.drag_to(sx, sy);
    assert_eq!(game.release(), Some(s));
}

#[test]
fn fresh_board_is_idle_and_incomplete() {
    let game = six_piece_game();
    assert_eq!(game.tile_count(), 6);
    assert_eq!(game.slot_count(), 6);
    assert_eq!(game.dragged_tile(), None);
    assert!(!game.is_complete());
    for s in 0..6 {
        assert_eq!(game.slot_occupant(s), None);
        assert!(!game.slot_hint_active(s));
    }
    for t in 0..6 {
        assert_eq!(game.tile_slot(t), None);
        assert_eq!(game.tile_correct_index(t), t);
    }
}

#[test]
fn pick_misses_empty_space() {
    let mut game = six_piece_game();
    // Nothing lies near the origin at the start.
    assert_eq!(game.pick(0, 0), None);
    assert_eq!(game.dragged_tile(), None);
}

#[test]
fn pick_within_radius_lifts_the_tile() {
    let mut game = six_piece_game();
    // Tile 0 sits at (2000, 2000); 169 units away is still inside the
    // pick radius of about 169.7.
    assert_eq!(game.pick(2000 + 169, 2000), Some(0));
    assert_eq!(game.dragged_tile(), Some(0));
}

#[test]
fn pick_outside_radius_misses() {
    let mut game = six_piece_game();
    // 170 units away is outside the pick radius of about 169.7.
    assert_eq!(game.pick(2000 + 170, 2000), None);
    assert_eq!(game.dragged_tile(), None);
}

#[test]
fn pick_chooses_the_topmost_of_stacked_tiles() {
    // Two tiles on the same point: the one created later is drawn above
    // and must win the pick.
    let slots = vec![(-100, 0), (100, 0)];
    let scatter = vec![(500, 500), (500, 500)];
    let mut game = PuzzleState::new(&slots, &scatter, 28800, 7200);
    assert_eq!(game.pick(500, 500), Some(1));
}

#[test]
fn drag_keeps_the_pick_offset() {
    let mut game = six_piece_game();
    // Picked 10 right of and 20 above the tile's origin: the tile must
    // keep that offset while following the pointer.
    assert_eq!(game.pick(2010, 2020), Some(0));
    game.drag_to(100, 200);
    assert_eq!(game.tile_position(0), (100 - 10, 200 - 20));
}

#[test]
fn drop_near_slot_snaps_exactly() {
    // Scenario: drop the tile with home slot 0 within snap range of slot
    // 0's center; it must land exactly on the computed position.
    let mut game = six_piece_game();
    assert_eq!(game.pick(2000, 2000), Some(0));
    // Slot 0 is at (-240, 120); 50 units off is inside the threshold of
    // about 84.85.
    game.drag_to(-240 + 50, 120);
    assert_eq!(game.release(), Some(0));
    assert_eq!(game.tile_position(0), (-240, 120));
    assert_eq!(game.tile_slot(0), Some(0));
    assert_eq!(game.slot_occupant(0), Some(0));
    assert!(!game.is_complete());
    assert_eq!(game.dragged_tile(), None);
}

#[test]
fn drop_far_from_any_slot_leaves_tile_floating() {
    let mut game = six_piece_game();
    assert_eq!(game.pick(2000, 2000), Some(0));
    game.drag_to(800, 900);
    assert_eq!(game.release(), None);
    assert_eq!(game.tile_position(0), (800, 900));
    assert_eq!(game.tile_slot(0), None);
    assert_eq!(game.dragged_tile(), None);
}

#[test]
fn all_tiles_placed_in_scrambled_order_completes_once() {
    // Scenario: place all six tiles at their correct slots in a scrambled
    // order; completion must hold only after the sixth drop.
    let mut game = six_piece_game();
    let mut detector = CompletionDetector::new();
    let order = [3usize, 0, 5, 1, 4, 2];
    for (done, &t) in order.iter().enumerate() {
        assert!(!game.is_complete());
        assert!(!detector.poll(&game));
        place_tile(&mut game, t, t);
        assert_eq!(game.slot_occupant(t), Some(t));
        if done < order.len() - 1 {
            assert!(!game.is_complete());
        }
    }
    assert!(game.is_complete());
    assert!(detector.poll(&game));
}

#[test]
fn wrongly_filled_board_is_incomplete() {
    // Every slot occupied, but two tiles swapped: not complete.
    let mut game = six_piece_game();
    place_tile(&mut game, 0, 1);
    place_tile(&mut game, 1, 0);
    for t in 2..6 {
        place_tile(&mut game, t, t);
    }
    for s in 0..6 {
        assert!(game.slot_occupant(s).is_some());
    }
    assert!(!game.is_complete());
}

#[test]
fn repicking_a_placed_tile_frees_its_slot() {
    // Scenario: tile 2 parked in slot 3, picked up again and dropped far
    // away; slot 3 must be free and the tile unplaced.
    let mut game = six_piece_game();
    place_tile(&mut game, 2, 3);
    assert_eq!(game.slot_occupant(3), Some(2));
    // The tile now sits on slot 3's center (-240, -120).
    assert_eq!(game.pick(-240, -120), Some(2));
    // The slot is free the moment the tile is lifted.
    assert_eq!(game.slot_occupant(3), None);
    assert_eq!(game.tile_slot(2), None);
    game.drag_to(800, 900);
    assert_eq!(game.release(), None);
    assert_eq!(game.slot_occupant(3), None);
    assert_eq!(game.tile_slot(2), None);
}

#[test]
fn freed_slot_accepts_another_tile() {
    let mut game = six_piece_game();
    place_tile(&mut game, 2, 3);
    assert_eq!(game.pick(-240, -120), Some(2));
    game.drag_to(800, 900);
    assert_eq!(game.release(), None);
    // Slot 3 is free again and another tile can take it.
    place_tile(&mut game, 3, 3);
    assert_eq!(game.slot_occupant(3), Some(3));
}

#[test]
fn occupied_slot_never_captures_a_drop() {
    let mut game = six_piece_game();
    place_tile(&mut game, 0, 0);
    // Tile 1 dropped right on occupied slot 0: slot 1 at (0, 120) is 240
    // away, outside the threshold, so the drop must miss entirely.
    assert_eq!(game.pick(2400, 2000), Some(1));
    game.drag_to(-240, 120);
    assert_eq!(game.release(), None);
    assert_eq!(game.slot_occupant(0), Some(0));
    assert_eq!(game.tile_slot(1), None);
}

#[test]
fn nearest_of_two_free_slots_wins() {
    // Scenario: two free slots inside the snap threshold of one drop
    // point, at distances 3.9 and 4.1 on a scale whose threshold's square
    // root is 8, scaled by ten: 39 and 41 against a threshold of 80.
    let slots = vec![(39, 0), (-41, 0)];
    let scatter = vec![(500, 0), (900, 0)];
    let mut game = PuzzleState::new(&slots, &scatter, 28800, 6400);
    assert_eq!(game.pick(500, 0), Some(0));
    game.drag_to(0, 0);
    assert_eq!(game.release(), Some(0));
    assert_eq!(game.tile_position(0), (39, 0));
    assert_eq!(game.slot_occupant(0), Some(0));
    assert_eq!(game.slot_occupant(1), None);
}

#[test]
fn equally_near_slots_resolve_to_the_lowest_index() {
    let slots = vec![(40, 0), (-40, 0)];
    let scatter = vec![(500, 0), (900, 0)];
    let mut game = PuzzleState::new(&slots, &scatter, 28800, 6400);
    assert_eq!(game.pick(500, 0), Some(0));
    game.drag_to(0, 0);
    assert_eq!(game.release(), Some(0));
    assert_eq!(game.slot_occupant(0), Some(0));
}

#[test]
fn hints_follow_the_drag() {
    let mut game = six_piece_game();
    assert_eq!(game.pick(2000, 2000), Some(0));
    // Near slot 0 only: exactly that hint lights up.
    game.drag_to(-240 + 50, 120);
    assert!(game.slot_hint_active(0));
    for s in 1..6 {
        assert!(!game.slot_hint_active(s));
    }
    // Away from every slot: all hints go out.
    game.drag_to(800, 900);
    for s in 0..6 {
        assert!(!game.slot_hint_active(s));
    }
}

#[test]
fn occupied_slot_shows_no_hint() {
    let mut game = six_piece_game();
    place_tile(&mut game, 0, 0);
    assert_eq!(game.pick(2400, 2000), Some(1));
    game.drag_to(-240 + 10, 120);
    // Right over slot 0, but it is taken: no hint.
    assert!(!game.slot_hint_active(0));
}

#[test]
fn hints_clear_on_release() {
    let mut game = six_piece_game();
    assert_eq!(game.pick(2000, 2000), Some(0));
    game.drag_to(-240 + 50, 120);
    assert!(game.slot_hint_active(0));
    assert_eq!(game.release(), Some(0));
    for s in 0..6 {
        assert!(!game.slot_hint_active(s));
    }
}

#[test]
fn drag_without_a_pick_changes_nothing() {
    let mut game = six_piece_game();
    game.drag_to(0, 0);
    assert_eq!(game.release(), None);
    for t in 0..6 {
        assert_eq!(game.tile_position(t), (2000 + 400 * t as i64, 2000));
    }
}

#[test]
fn pick_during_a_drag_changes_nothing() {
    let mut game = six_piece_game();
    assert_eq!(game.pick(2000, 2000), Some(0));
    // A second click lands on tile 1; while a drag is live it lifts
    // nothing.
    assert_eq!(game.pick(2400, 2000), None);
    assert_eq!(game.dragged_tile(), Some(0));
}

#[test]
fn click_toggles_between_pick_and_drop() {
    let mut game = six_piece_game();
    // Idle click on empty space: nothing lifted.
    assert_eq!(game.click(0, 0), ClickOutcome::NoPieceUnderPointer);
    // Idle click on tile 0: a drag begins.
    assert_eq!(game.click(2000, 2000), ClickOutcome::Picked(0));
    // Click during the drag, near slot 0: the tile drops in.
    game.drag_to(-240 + 50, 120);
    assert_eq!(game.click(-240 + 50, 120), ClickOutcome::Placed(0));
    // Next drag ends far from the board: the piece floats.
    assert_eq!(game.click(2400, 2000), ClickOutcome::Picked(1));
    game.drag_to(900, 900);
    assert_eq!(game.click(900, 900), ClickOutcome::NoSlotInRange);
    assert_eq!(game.tile_slot(1), None);
}

// Both directions of the assignment bookkeeping, checked from outside: a
// placed tile is its slot's occupant, an occupant occupies its slot, and
// no two tiles claim one slot.
fn assert_assignment_consistent(game: &PuzzleState) {
    for t in 0..game.tile_count() {
        if let Some(s) = game.tile_slot(t) {
            assert_eq!(game.slot_occupant(s), Some(t));
        }
    }
    for s in 0..game.slot_count() {
        if let Some(t) = game.slot_occupant(s) {
            assert_eq!(game.tile_slot(t), Some(s));
        }
    }
    for t1 in 0..game.tile_count() {
        for t2 in 0..game.tile_count() {
            if t1 != t2 && game.tile_slot(t1).is_some() {
                assert_ne!(game.tile_slot(t1), game.tile_slot(t2));
            }
        }
    }
}

#[test]
fn assignment_stays_injective_through_messy_play() {
    let mut game = six_piece_game();
    assert_assignment_consistent(&game);
    place_tile(&mut game, 0, 2);
    assert_assignment_consistent(&game);
    place_tile(&mut game, 1, 0);
    assert_assignment_consistent(&game);
    // Re-pick the tile parked in slot 2 and drop it in the open: the
    // drop misses, and nothing may end up shared.
    assert_eq!(game.pick(240, 120), Some(0));
    assert_assignment_consistent(&game);
    game.drag_to(600, 600);
    assert_eq!(game.release(), None);
    assert_assignment_consistent(&game);
    // Park it again and fill a few more.
    place_tile(&mut game, 0, 2);
    place_tile(&mut game, 4, 4);
    place_tile(&mut game, 5, 1);
    assert_assignment_consistent(&game);
}

#[test]
fn empty_board_is_trivially_complete() {
    let slots: Vec<(i64, i64)> = Vec::new();
    let scatter: Vec<(i64, i64)> = Vec::new();
    let game = PuzzleState::new(&slots, &scatter, 100, 10);
    assert!(game.is_complete());
}

#[test]
fn largest_board_places_a_corner_tile() {
    // The largest supported count: 12 x 8 cells of side 80.
    let cfg = BoardConfig::new(12, 8, 80);
    let scatter = scattered_far_apart(96);
    let mut game = PuzzleState::from_config(&cfg, &scatter);
    assert_eq!(game.tile_count(), 96);
    let (tx, ty) = game.tile_position(95);
    assert_eq!(game.pick(tx, ty), Some(95));
    let (sx, sy) = slot_position(&cfg, 95);
    game.drag_to(sx, sy);
    assert_eq!(game.release(), Some(95));
    assert_eq!(game.tile_position(95), (sx, sy));
    assert!(!game.is_complete());
}

#[test]
fn success_signal_fires_exactly_once() {
    // Once complete, further no-op frames must not re-emit the signal.
    let mut game = six_piece_game();
    let mut detector = CompletionDetector::new();
    for t in 0..6 {
        place_tile(&mut game, t, t);
        detector.poll(&game);
    }
    assert!(game.is_complete());
    // The poll after the sixth placement emitted; later frames stay
    // quiet even though the board remains complete.
    assert!(!detector.poll(&game));
    assert!(!detector.poll(&game));
}

#[test]
fn success_signal_emits_on_the_completing_poll() {
    let mut game = six_piece_game();
    let mut detector = CompletionDetector::new();
    for t in 0..5 {
        place_tile(&mut game, t, t);
        assert!(!detector.poll(&game));
    }
    place_tile(&mut game, 5, 5);
    assert!(detector.poll(&game));
    assert!(!detector.poll(&game));
}
