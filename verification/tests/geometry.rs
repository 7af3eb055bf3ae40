use tetris_core::kicks::kicks_for;
use tetris_core::piece::{Direction, Orientation, Piece, PieceType};

#[test]
fn offsets_of_each_kind() {
    assert_eq!(PieceType::I.to_squares(), vec![(-1, 0), (0, 0), (1, 0), (2, 0)]);
    assert_eq!(PieceType::O.to_squares(), vec![(0, 0), (1, 0), (0, -1), (1, -1)]);
    assert_eq!(PieceType::T.to_squares(), vec![(0, 0), (1, 0), (-1, 0), (0, 1)]);
    assert_eq!(PieceType::J.to_squares(), vec![(0, 0), (-1, 0), (1, 0), (-1, -1)]);
    assert_eq!(PieceType::L.to_squares(), vec![(0, 0), (-1, 0), (1, 0), (1, -1)]);
    assert_eq!(PieceType::S.to_squares(), vec![(0, 0), (-1, 0), (0, -1), (1, -1)]);
    assert_eq!(PieceType::Z.to_squares(), vec![(0, 0), (1, 0), (0, -1), (-1, -1)]);
}

#[test]
fn hues_of_each_kind() {
    assert_eq!(PieceType::I.to_hue(), 303);
    assert_eq!(PieceType::O.to_hue(), 59);
    assert_eq!(PieceType::T.to_hue(), 28);
    assert_eq!(PieceType::J.to_hue(), 128);
    assert_eq!(PieceType::L.to_hue(), 245);
    assert_eq!(PieceType::S.to_hue(), 183);
    assert_eq!(PieceType::Z.to_hue(), 0);
}

#[test]
fn offset_sums() {
    assert_eq!(PieceType::I.offset_sum(), (2, 0));
    assert_eq!(PieceType::O.offset_sum(), (2, -2));
    assert_eq!(PieceType::T.offset_sum(), (0, 1));
    assert_eq!(PieceType::J.offset_sum(), (-1, -1));
    assert_eq!(PieceType::L.offset_sum(), (1, -1));
    assert_eq!(PieceType::S.offset_sum(), (0, -2));
    assert_eq!(PieceType::Z.offset_sum(), (0, -2));
}

#[test]
fn rotation_cycle_returns_to_start() {
    for o in [Orientation::Deg0, Orientation::Deg90, Orientation::Deg180, Orientation::Deg270] {
        let mut cw = o;
        let mut ccw = o;
        for _ in 0..4 {
            cw = cw.rotate_clockwise();
            ccw = ccw.rotate_counterclockwise();
        }
        assert_eq!(cw, o);
        assert_eq!(ccw, o);
    }
}

#[test]
fn rotations_are_mutual_inverses() {
    for o in [Orientation::Deg0, Orientation::Deg90, Orientation::Deg180, Orientation::Deg270] {
        assert_eq!(o.rotate_clockwise().rotate_counterclockwise(), o);
        assert_eq!(o.rotate_counterclockwise().rotate_clockwise(), o);
    }
}

#[test]
fn squares_rotate_in_quarter_turns() {
    let p = Piece { position: (5, 5), piece_type: PieceType::I, orientation: Orientation::Deg90 };
    assert_eq!(p.squares(), vec![(5, 6), (5, 5), (5, 4), (5, 3)]);
    let p180 = Piece { position: (5, 5), piece_type: PieceType::I, orientation: Orientation::Deg180 };
    assert_eq!(p180.squares(), vec![(6, 5), (5, 5), (4, 5), (3, 5)]);
    let p270 = Piece { position: (5, 5), piece_type: PieceType::I, orientation: Orientation::Deg270 };
    assert_eq!(p270.squares(), vec![(5, 4), (5, 5), (5, 6), (5, 7)]);
}

#[test]
fn squares_after_move_shift_by_unit() {
    let p = Piece { position: (4, 7), piece_type: PieceType::O, orientation: Orientation::Deg0 };
    assert_eq!(p.squares_after_move(Direction::Down), vec![(4, 6), (5, 6), (4, 5), (5, 5)]);
    assert_eq!(p.squares_after_move(Direction::Up), vec![(4, 8), (5, 8), (4, 7), (5, 7)]);
    assert_eq!(p.squares_after_move(Direction::Left), vec![(3, 7), (4, 7), (3, 6), (4, 6)]);
    assert_eq!(p.squares_after_move(Direction::Right), vec![(5, 7), (6, 7), (5, 6), (6, 6)]);
}

#[test]
fn squares_after_translation_rotation_combines_both() {
    let p = Piece { position: (5, 5), piece_type: PieceType::I, orientation: Orientation::Deg0 };
    // one clockwise quarter turn, then a shift by (1, 2)
    assert_eq!(
        p.squares_after_translation_rotation((1, 2), true),
        vec![(6, 8), (6, 7), (6, 6), (6, 5)]
    );
}

#[test]
fn kick_table_shared_kinds() {
    let expect = vec![(0, 0), (-1, 0), (-1, 1), (0, -2), (-1, -2)];
    for k in [PieceType::T, PieceType::J, PieceType::L, PieceType::S, PieceType::Z] {
        assert_eq!(kicks_for(k, Orientation::Deg0, true), expect);
    }
    assert_eq!(
        kicks_for(PieceType::T, Orientation::Deg90, false),
        vec![(0, 0), (1, 0), (1, -1), (0, 2), (1, 2)]
    );
    assert_eq!(
        kicks_for(PieceType::T, Orientation::Deg180, true),
        vec![(0, 0), (1, 0), (1, 1), (0, -2), (1, -2)]
    );
}

#[test]
fn kick_table_i_kind() {
    assert_eq!(
        kicks_for(PieceType::I, Orientation::Deg0, true),
        vec![(0, 0), (-2, 0), (1, 0), (-2, -1), (1, 2)]
    );
    assert_eq!(
        kicks_for(PieceType::I, Orientation::Deg270, false),
        vec![(0, 0), (-2, 0), (1, 0), (-2, -1), (1, 2)]
    );
}

#[test]
fn kick_table_o_kind_never_kicks() {
    for o in [Orientation::Deg0, Orientation::Deg90, Orientation::Deg180, Orientation::Deg270] {
        for cw in [true, false] {
            assert_eq!(kicks_for(PieceType::O, o, cw), vec![(0, 0); 5]);
        }
    }
}

#[test]
fn jump_table_matches_kick_table() {
    let p = Piece { position: (3, 3), piece_type: PieceType::S, orientation: Orientation::Deg270 };
    assert_eq!(p.jump_table(false), vec![(0, 0), (-1, 0), (-1, -1), (0, 2), (-1, 2)]);
}

#[test]
fn random_kinds_cover_all_seven() {
    let mut seen = [false; 7];
    for _ in 0..2000 {
        let k = tetris_core::rng::random_kind();
        let i = match k {
            PieceType::I => 0,
            PieceType::O => 1,
            PieceType::T => 2,
            PieceType::J => 3,
            PieceType::L => 4,
            PieceType::S => 5,
            PieceType::Z => 6,
        };
        seen[i] = true;
    }
    assert!(seen.iter().all(|&s| s));
}
