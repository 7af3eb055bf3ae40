use tetris_core::board::Board;
use tetris_core::piece::{Direction, Orientation, Piece, PieceType};

fn empty_board(width: usize, height: usize, active: Piece, stored: PieceType) -> Board {
    Board {
        board: vec![vec![None; width]; height],
        width,
        height,
        active_piece: active,
        stored_piece: stored,
        done: false,
        score: 0,
    }
}

fn piece(kind: PieceType, x: i32, y: i32) -> Piece {
    Piece { position: (x, y), piece_type: kind, orientation: Orientation::Deg0 }
}

#[test]
fn new_board_starts_empty_and_live() {
    let b = Board::new(10, 20);
    assert_eq!(b.width, 10);
    assert_eq!(b.height, 20);
    assert_eq!(b.score, 0);
    assert!(!b.done);
    assert_eq!(b.active_piece.position, (5, 16));
    assert_eq!(b.active_piece.orientation, Orientation::Deg0);
    for y in 0..20 {
        for x in 0..10 {
            assert_eq!(b.get_square_hue(x, y), None);
        }
    }
}

#[test]
fn moves_commit_on_open_cells() {
    let mut b = empty_board(10, 20, piece(PieceType::I, 5, 10), PieceType::T);
    assert!(b.move_piece(Direction::Left));
    assert_eq!(b.active_piece.position, (4, 10));
    assert!(b.move_piece(Direction::Right));
    assert!(b.move_piece(Direction::Down));
    assert_eq!(b.active_piece.position, (5, 9));
    assert!(b.move_piece(Direction::Up));
    assert_eq!(b.active_piece.position, (5, 10));
    assert_eq!(b.score, 0);
}

#[test]
fn move_into_wall_is_rejected() {
    // the I piece at anchor 1 spans columns 0..=3: one step left leaves the grid
    let mut b = empty_board(10, 20, piece(PieceType::I, 1, 10), PieceType::T);
    assert!(!b.move_piece(Direction::Left));
    assert_eq!(b.active_piece.position, (1, 10));
}

#[test]
fn move_into_locked_cell_is_rejected() {
    let mut b = empty_board(10, 20, piece(PieceType::I, 5, 10), PieceType::T);
    b.set_square(5, 9, 42);
    assert!(!b.move_piece(Direction::Down));
    assert_eq!(b.active_piece.position, (5, 10));
    assert_eq!(b.get_square_hue(5, 9), Some(42));
}

#[test]
fn rotation_without_obstruction_keeps_anchor() {
    let mut b = empty_board(10, 20, piece(PieceType::T, 5, 10), PieceType::I);
    b.rotate_piece(true);
    assert_eq!(b.active_piece.orientation, Orientation::Deg90);
    assert_eq!(b.active_piece.position, (5, 10));
    b.rotate_piece(false);
    assert_eq!(b.active_piece.orientation, Orientation::Deg0);
    assert_eq!(b.active_piece.position, (5, 10));
}

#[test]
fn four_rotations_restore_orientation_with_kicks() {
    let mut b = empty_board(10, 20, piece(PieceType::L, 5, 10), PieceType::I);
    let before = b.active_piece.orientation;
    for _ in 0..4 {
        b.rotate_piece(true);
    }
    assert_eq!(b.active_piece.orientation, before);
}

#[test]
fn rotation_on_floor_uses_a_kick() {
    // a flat I piece on the floor: the upright placement needs the (1, 2) kick
    let mut b = empty_board(10, 20, piece(PieceType::I, 5, 0), PieceType::T);
    b.rotate_piece(true);
    assert_eq!(b.active_piece.orientation, Orientation::Deg90);
    assert_eq!(b.active_piece.position, (6, 2));
}

#[test]
fn rotation_with_no_legal_placement_is_rejected() {
    // every cell is locked except the active piece's own four cells
    let mut b = empty_board(10, 20, piece(PieceType::I, 5, 10), PieceType::T);
    for y in 0..20 {
        for x in 0..10 {
            if y != 10 || x < 4 || x > 7 {
                b.set_square(x, y, 1);
            }
        }
    }
    b.rotate_piece(true);
    assert_eq!(b.active_piece.orientation, Orientation::Deg0);
    assert_eq!(b.active_piece.position, (5, 10));
}

#[test]
fn swap_exchanges_active_and_stored() {
    let mut b = empty_board(10, 20, piece(PieceType::I, 5, 10), PieceType::O);
    b.swap_stored();
    assert_eq!(b.active_piece.piece_type, PieceType::O);
    assert_eq!(b.stored_piece, PieceType::I);
    assert_eq!(b.active_piece.position, (5, 10));
    assert_eq!(b.active_piece.orientation, Orientation::Deg0);
}

#[test]
fn blocked_swap_changes_nothing() {
    // the O piece at the anchor would cover (5, 9), which is locked;
    // the I piece does not, so the board is live but the swap must refuse
    let mut b = empty_board(10, 20, piece(PieceType::I, 5, 10), PieceType::O);
    b.set_square(5, 9, 7);
    b.swap_stored();
    assert_eq!(b.active_piece.piece_type, PieceType::I);
    assert_eq!(b.stored_piece, PieceType::O);
    assert_eq!(b.active_piece.position, (5, 10));
}

#[test]
fn instant_drop_preview_rests_on_floor() {
    let b = empty_board(10, 20, piece(PieceType::I, 5, 16), PieceType::T);
    let p = b.instant_drop_piece();
    assert_eq!(p.position, (5, 0));
    assert_eq!(p.piece_type, PieceType::I);
    assert_eq!(p.orientation, Orientation::Deg0);
    // the preview does not mutate the board
    assert_eq!(b.active_piece.position, (5, 16));
    assert_eq!(b.get_square_hue(5, 0), None);
}

#[test]
fn instant_drop_preview_rests_on_stack() {
    let mut b = empty_board(10, 20, piece(PieceType::O, 4, 16), PieceType::T);
    b.set_square(4, 3, 9);
    // the O piece covers rows y and y-1; it rests with its lower row on y=4
    let p = b.instant_drop_piece();
    assert_eq!(p.position, (4, 5));
}

#[test]
fn committed_drop_locks_and_spawns_held_kind() {
    let mut b = empty_board(10, 20, piece(PieceType::I, 5, 16), PieceType::T);
    b.do_instant_drop();
    for x in 4..=7 {
        assert_eq!(b.get_square_hue(x, 0), Some(303));
    }
    assert_eq!(b.active_piece.piece_type, PieceType::T);
    assert_eq!(b.active_piece.position, (5, 18));
    assert_eq!(b.active_piece.orientation, Orientation::Deg0);
    assert_eq!(b.score, 0);
    assert!(!b.done);
}

#[test]
fn clear_single_row_scores_100() {
    let mut b = empty_board(10, 20, piece(PieceType::I, 5, 16), PieceType::T);
    for x in 0..10 {
        b.set_square(x, 0, 5);
    }
    b.set_square(3, 1, 8);
    b.clear_full_rows();
    assert_eq!(b.score, 100);
    // the row above shifts down
    assert_eq!(b.get_square_hue(3, 0), Some(8));
    assert_eq!(b.get_square_hue(3, 1), None);
    assert_eq!(b.board.len(), 20);
}

#[test]
fn clear_two_and_three_rows_score_300_and_500() {
    let mut b = empty_board(10, 20, piece(PieceType::I, 5, 16), PieceType::T);
    for x in 0..10 {
        b.set_square(x, 0, 5);
        b.set_square(x, 2, 5);
    }
    b.clear_full_rows();
    assert_eq!(b.score, 300);
    let mut c = empty_board(10, 20, piece(PieceType::I, 5, 16), PieceType::T);
    for x in 0..10 {
        c.set_square(x, 0, 5);
        c.set_square(x, 1, 5);
        c.set_square(x, 7, 5);
    }
    c.clear_full_rows();
    assert_eq!(c.score, 500);
}

#[test]
fn quadruple_clear_scores_800_and_empties_four_rows() {
    let mut b = empty_board(10, 20, piece(PieceType::I, 5, 16), PieceType::T);
    for y in 0..4 {
        for x in 0..10 {
            b.set_square(x, y, 6);
        }
    }
    b.set_square(0, 4, 9);
    b.clear_full_rows();
    assert_eq!(b.score, 800);
    // the one survivor above the four full rows lands on the floor
    assert_eq!(b.get_square_hue(0, 0), Some(9));
    // no full row is left, and the top four rows are open
    for y in 0..20 {
        let mut full = true;
        for x in 0..10 {
            if b.get_square_hue(x, y).is_none() {
                full = false;
            }
            if y >= 16 {
                assert_eq!(b.get_square_hue(x, y), None);
            }
        }
        assert!(!full);
    }
    assert_eq!(b.board.len(), 20);
}

#[test]
fn score_saturates_at_the_integer_limit() {
    let mut b = empty_board(10, 20, piece(PieceType::I, 5, 16), PieceType::T);
    b.score = u32::MAX - 50;
    for x in 0..10 {
        b.set_square(x, 0, 5);
    }
    b.clear_full_rows();
    assert_eq!(b.score, u32::MAX);
}

#[test]
fn range_and_open_queries() {
    let mut b = empty_board(10, 20, piece(PieceType::I, 5, 10), PieceType::T);
    b.set_square(2, 3, 9);
    assert!(b.in_range((0, 0)));
    assert!(b.in_range((9, 19)));
    assert!(!b.in_range((-1, 0)));
    assert!(!b.in_range((10, 0)));
    assert!(!b.in_range((0, 20)));
    assert!(b.open_square((0, 0)));
    assert!(!b.open_square((2, 3)));
    assert!(!b.open_square((0, -1)));
    assert!(b.square_filled(2, 3));
    assert!(!b.square_filled(1, 3));
    let clear_spot = piece(PieceType::I, 5, 10);
    assert!(b.check_valid_piece_position(&clear_spot));
    // the flat I at anchor 1 covers columns 0..=3 of row 3, including (2, 3)
    let blocked_spot = piece(PieceType::I, 1, 3);
    assert!(!b.check_valid_piece_position(&blocked_spot));
}

#[test]
fn tick_moves_the_piece_down() {
    let mut b = empty_board(10, 20, piece(PieceType::J, 5, 10), PieceType::T);
    b.tick();
    assert_eq!(b.active_piece.position, (5, 9));
    assert_eq!(b.score, 0);
    assert!(!b.done);
}

#[test]
fn tick_locks_a_blocked_piece_and_spawns() {
    let mut b = empty_board(10, 20, piece(PieceType::I, 5, 0), PieceType::S);
    b.tick();
    for x in 4..=7 {
        assert_eq!(b.get_square_hue(x, 0), Some(303));
    }
    assert_eq!(b.active_piece.piece_type, PieceType::S);
    assert_eq!(b.active_piece.position, (5, 18));
    assert!(!b.done);
    assert_eq!(b.score, 0);
}
