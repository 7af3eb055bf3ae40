use tetris_core::board::Board;
use tetris_core::piece::{Direction, Orientation, Piece, PieceType};

fn fresh_board(width: usize, height: usize, active: Piece, stored: PieceType) -> Board {
    Board {
        board: vec![vec![None; width]; height],
        width,
        height,
        active_piece: active,
        stored_piece: stored,
        done: false,
        score: 0,
    }
}

fn spawn(kind: PieceType, x: i32, y: i32) -> Piece {
    Piece { position: (x, y), piece_type: kind, orientation: Orientation::Deg0 }
}

#[test]
fn i_piece_falls_straight_to_the_floor_and_locks() {
    // a 10 by 20 board, an I piece at the fresh-game anchor (5, 16), held T
    let mut b = fresh_board(10, 20, spawn(PieceType::I, 5, 16), PieceType::T);
    for n in 1..=16 {
        b.tick();
        assert_eq!(b.active_piece.position, (5, 16 - n));
        assert_eq!(b.active_piece.piece_type, PieceType::I);
        assert_eq!(b.score, 0);
        assert!(!b.done);
    }
    // on the floor now; the next frame locks it and the held kind appears
    b.tick();
    for x in 4..=7 {
        assert_eq!(b.get_square_hue(x, 0), Some(303));
    }
    assert_eq!(b.active_piece.piece_type, PieceType::T);
    assert_eq!(b.active_piece.position, (5, 18));
    assert_eq!(b.score, 0);
    assert!(!b.done);
}

#[test]
fn completing_the_bottom_row_scores_100_and_shifts_rows_down() {
    // nine of ten bottom cells locked; an upright I drops into the last column
    let mut b = fresh_board(10, 20, spawn(PieceType::I, 9, 16), PieceType::T);
    b.active_piece.orientation = Orientation::Deg90;
    for x in 0..9 {
        b.set_square(x, 0, 50);
    }
    b.set_square(0, 1, 60);
    b.do_instant_drop();
    assert_eq!(b.score, 100);
    // the finished bottom row is gone; the row above it came down by one
    assert_eq!(b.get_square_hue(0, 0), Some(60));
    for x in 1..9 {
        assert_eq!(b.get_square_hue(x, 0), None);
    }
    // three cells of the upright piece survive above the cleared row
    assert_eq!(b.get_square_hue(9, 0), Some(303));
    assert_eq!(b.get_square_hue(9, 1), Some(303));
    assert_eq!(b.get_square_hue(9, 2), Some(303));
    assert_eq!(b.get_square_hue(9, 3), None);
    assert!(!b.done);
}

#[test]
fn spawning_onto_locked_cells_ends_the_game() {
    // the spawn anchor cell is occupied, so the lock after this frame
    // spawns a colliding piece and the game becomes terminal
    let mut b = fresh_board(10, 20, spawn(PieceType::I, 5, 0), PieceType::L);
    b.set_square(5, 18, 33);
    b.tick();
    assert!(b.done);
    assert_eq!(b.active_piece.piece_type, PieceType::L);
    assert_eq!(b.active_piece.position, (5, 18));

    // terminal is absorbing: no call changes grid, active piece, or score
    let grid_before = b.board.clone();
    let active_before = b.active_piece;
    let stored_before = b.stored_piece;
    let score_before = b.score;
    b.tick();
    assert!(!b.move_piece(Direction::Down));
    assert!(!b.move_piece(Direction::Left));
    b.rotate_piece(true);
    b.rotate_piece(false);
    b.swap_stored();
    b.do_instant_drop();
    assert_eq!(b.board, grid_before);
    assert_eq!(b.active_piece, active_before);
    assert_eq!(b.stored_piece, stored_before);
    assert_eq!(b.score, score_before);
    assert!(b.done);
}

#[test]
fn full_spawn_footprint_is_detected_for_every_kind() {
    for kind in [
        PieceType::I,
        PieceType::O,
        PieceType::T,
        PieceType::J,
        PieceType::L,
        PieceType::S,
        PieceType::Z,
    ] {
        let mut b = fresh_board(10, 20, spawn(PieceType::I, 5, 0), kind);
        // rows 17, 18, and 19 fully occupied: every spawn footprint overlaps
        for y in 17..20 {
            for x in 0..10 {
                b.set_square(x, y, 1);
            }
        }
        b.tick();
        assert!(b.done, "spawned kind must collide");
        assert_eq!(b.active_piece.piece_type, kind);
    }
}

#[test]
fn render_shows_borders_locked_cells_and_active_piece() {
    let mut b = fresh_board(5, 5, spawn(PieceType::O, 2, 2), PieceType::T);
    b.set_square(0, 0, 77);
    let picture = b.render_string();
    let expected = "+-----+\n\
                    |     |\n\
                    |     |\n\
                    |  ++ |\n\
                    |  ++ |\n\
                    |*    |\n\
                    +-----+\n";
    assert_eq!(picture, expected);
}

#[test]
fn render_after_a_tick_tracks_the_piece() {
    let mut b = fresh_board(5, 5, spawn(PieceType::O, 2, 2), PieceType::T);
    b.tick();
    let picture = b.render_string();
    let expected = "+-----+\n\
                    |     |\n\
                    |     |\n\
                    |     |\n\
                    |  ++ |\n\
                    |  ++ |\n\
                    +-----+\n";
    assert_eq!(picture, expected);
}
