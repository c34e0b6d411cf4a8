use chess_core::action::{
    castle_squares, Action, Capture, Castle, CastleSquares, EnPassant, Move, PawnDoubleMove,
    Promotion, PromotionCapture,
};
use chess_core::board::Board;
use chess_core::piece::{Color, Piece, Type};

fn bare(turn: Color) -> Board {
    Board {
        squares: [[Piece::empty(); 8]; 8],
        can_castle_black_queenside: false,
        can_castle_black_kingside: false,
        can_castle_white_queenside: false,
        can_castle_white_kingside: false,
        can_en_passant: None,
        turn,
    }
}

fn with_kings(turn: Color) -> Board {
    let mut b = bare(turn);
    b.put((4, 0), Piece::new(Color::Black, Type::King));
    b.put((4, 7), Piece::new(Color::White, Type::King));
    b
}

#[test]
fn get_reads_what_put_wrote() {
    let mut b = bare(Color::White);
    let q = Piece::encode(Color::Black, Type::Queen, true);
    b.put((3, 5), q);
    assert_eq!(b.get((3, 5)), q);
    assert_eq!(b.squares[5][3], q);
    assert_eq!(b.get((5, 3)), Piece::empty());
}

#[test]
fn toggle_hands_the_move_over() {
    let mut b = bare(Color::White);
    b.toggle_side_to_move();
    assert_eq!(b.turn, Color::Black);
    b.toggle_side_to_move();
    assert_eq!(b.turn, Color::White);
}

#[test]
fn move_relocates_marks_and_flips_the_turn() {
    let mut b = with_kings(Color::White);
    b.put((1, 7), Piece::new(Color::White, Type::Knight));
    b.can_en_passant = Some(2);
    let before = b;
    let a = Action::Move(Move {
        from: (1, 7),
        to: (2, 5),
        had_moved: false,
        prev_can_en_passant: Some(2),
    });
    b.apply_action(&a);
    assert_eq!(b.get((1, 7)), Piece::empty());
    assert_eq!(b.get((2, 5)), Piece::encode(Color::White, Type::Knight, true));
    assert_eq!(b.turn, Color::Black);
    assert_eq!(b.can_en_passant, None);
    b.undo_action(&a);
    assert_eq!(b, before);
}

#[test]
fn move_of_a_moved_piece_is_undone_with_its_flag() {
    let mut b = with_kings(Color::Black);
    b.put((3, 3), Piece::encode(Color::Black, Type::Bishop, true));
    let before = b;
    let a = Action::Move(Move {
        from: (3, 3),
        to: (6, 6),
        had_moved: true,
        prev_can_en_passant: None,
    });
    b.apply_action(&a);
    assert_eq!(b.get((6, 6)), Piece::encode(Color::Black, Type::Bishop, true));
    assert_eq!(b.turn, Color::White);
    b.undo_action(&a);
    assert_eq!(b, before);
}

#[test]
fn white_double_step_lands_on_rank_four_and_sets_the_file() {
    let mut b = with_kings(Color::White);
    b.put((2, 6), Piece::new(Color::White, Type::Pawn));
    let before = b;
    let a = Action::PawnDoubleMove(PawnDoubleMove { from: (2, 6), prev_can_en_passant: None });
    b.apply_action(&a);
    assert_eq!(b.get((2, 6)), Piece::empty());
    assert_eq!(b.get((2, 5)), Piece::empty());
    assert_eq!(b.get((2, 4)), Piece::encode(Color::White, Type::Pawn, true));
    assert_eq!(b.can_en_passant, Some(2));
    assert_eq!(b.turn, Color::Black);
    b.undo_action(&a);
    assert_eq!(b, before);
}

#[test]
fn black_double_step_lands_on_rank_three_and_restores_the_prior_file() {
    let mut b = with_kings(Color::Black);
    b.put((7, 1), Piece::new(Color::Black, Type::Pawn));
    b.put((0, 4), Piece::encode(Color::White, Type::Pawn, true));
    b.can_en_passant = Some(0);
    let before = b;
    let a = Action::PawnDoubleMove(PawnDoubleMove { from: (7, 1), prev_can_en_passant: Some(0) });
    b.apply_action(&a);
    assert_eq!(b.get((7, 1)), Piece::empty());
    assert_eq!(b.get((7, 3)), Piece::encode(Color::Black, Type::Pawn, true));
    assert_eq!(b.can_en_passant, Some(7));
    assert_eq!(b.turn, Color::White);
    b.undo_action(&a);
    assert_eq!(b, before);
    assert_eq!(b.can_en_passant, Some(0));
}

#[test]
fn capture_discards_and_restores_the_captured_piece() {
    let mut b = with_kings(Color::White);
    let rook = Piece::encode(Color::White, Type::Rook, true);
    let victim = Piece::encode(Color::Black, Type::Knight, true);
    b.put((0, 4), rook);
    b.put((5, 4), victim);
    let before = b;
    let a = Action::Capture(Capture {
        from: (0, 4),
        to: (5, 4),
        captured: victim,
        had_moved: true,
        prev_can_en_passant: None,
    });
    b.apply_action(&a);
    assert_eq!(b.get((0, 4)), Piece::empty());
    assert_eq!(b.get((5, 4)), rook);
    assert_eq!(b.turn, Color::Black);
    b.undo_action(&a);
    assert_eq!(b.get((5, 4)), victim);
    assert_eq!(b, before);
}

#[test]
fn en_passant_removes_and_restores_the_passed_pawn() {
    let mut b = with_kings(Color::White);
    b.put((4, 3), Piece::encode(Color::White, Type::Pawn, true));
    b.put((3, 3), Piece::encode(Color::Black, Type::Pawn, true));
    b.can_en_passant = Some(3);
    let before = b;
    let a = Action::EnPassant(EnPassant { from: (4, 3), to: (3, 2) });
    b.apply_action(&a);
    assert_eq!(b.get((4, 3)), Piece::empty());
    assert_eq!(b.get((3, 3)), Piece::empty());
    assert_eq!(b.get((3, 2)), Piece::encode(Color::White, Type::Pawn, true));
    assert_eq!(b.can_en_passant, None);
    assert_eq!(b.turn, Color::Black);
    b.undo_action(&a);
    assert_eq!(b.get((3, 3)), Piece::encode(Color::Black, Type::Pawn, true));
    assert_eq!(b.can_en_passant, Some(3));
    assert_eq!(b, before);
}

#[test]
fn black_en_passant_is_undone_exactly() {
    let mut b = with_kings(Color::Black);
    b.put((6, 4), Piece::encode(Color::Black, Type::Pawn, true));
    b.put((7, 4), Piece::encode(Color::White, Type::Pawn, true));
    b.can_en_passant = Some(7);
    let before = b;
    let a = Action::EnPassant(EnPassant { from: (6, 4), to: (7, 5) });
    b.apply_action(&a);
    assert_eq!(b.get((7, 4)), Piece::empty());
    assert_eq!(b.get((7, 5)), Piece::encode(Color::Black, Type::Pawn, true));
    b.undo_action(&a);
    assert_eq!(b, before);
}

#[test]
fn castle_table_has_exactly_four_entries() {
    assert_eq!(
        castle_squares((2, 0)),
        Some(CastleSquares { king_from: (4, 0), rook_from: (0, 0), rook_to: (3, 0) })
    );
    assert_eq!(
        castle_squares((6, 0)),
        Some(CastleSquares { king_from: (4, 0), rook_from: (7, 0), rook_to: (5, 0) })
    );
    assert_eq!(
        castle_squares((2, 7)),
        Some(CastleSquares { king_from: (4, 7), rook_from: (0, 7), rook_to: (3, 7) })
    );
    assert_eq!(
        castle_squares((6, 7)),
        Some(CastleSquares { king_from: (4, 7), rook_from: (7, 7), rook_to: (5, 7) })
    );
    let mut count = 0;
    for x in 0..=255u8 {
        for y in 0..=255u8 {
            if castle_squares((x, y)).is_some() {
                count += 1;
            }
        }
    }
    assert_eq!(count, 4);
}

fn check_castle(turn: Color, to: (u8, u8), rook_from: (u8, u8), rook_to: (u8, u8)) {
    let mut b = with_kings(turn);
    b.put(rook_from, Piece::new(turn, Type::Rook));
    b.can_en_passant = None;
    let before = b;
    let a = Action::Castle(Castle { to, prev_can_en_passant: None });
    b.apply_action(&a);
    assert_eq!(b.get((4, to.1)), Piece::empty());
    assert_eq!(b.get(rook_from), Piece::empty());
    assert_eq!(b.get(to), Piece::encode(turn, Type::King, true));
    assert_eq!(b.get(rook_to), Piece::encode(turn, Type::Rook, true));
    assert_eq!(b.turn, turn.opposite());
    b.undo_action(&a);
    assert_eq!(b, before);
}

#[test]
fn castle_white_kingside_moves_king_and_rook() {
    check_castle(Color::White, (6, 7), (7, 7), (5, 7));
}

#[test]
fn castle_white_queenside_moves_king_and_rook() {
    check_castle(Color::White, (2, 7), (0, 7), (3, 7));
}

#[test]
fn castle_black_kingside_moves_king_and_rook() {
    check_castle(Color::Black, (6, 0), (7, 0), (5, 0));
}

#[test]
fn castle_black_queenside_moves_king_and_rook() {
    check_castle(Color::Black, (2, 0), (0, 0), (3, 0));
}

#[test]
fn promotion_replaces_the_pawn_and_undo_brings_it_back() {
    let mut b = with_kings(Color::White);
    b.put((0, 1), Piece::encode(Color::White, Type::Pawn, true));
    let before = b;
    let queen = Piece::encode(Color::White, Type::Queen, true);
    let a = Action::Promotion(Promotion {
        from: (0, 1),
        to: (0, 0),
        promoted_to: queen,
        prev_can_en_passant: None,
    });
    b.apply_action(&a);
    assert_eq!(b.get((0, 1)), Piece::empty());
    assert_eq!(b.get((0, 0)), queen);
    assert_eq!(b.turn, Color::Black);
    b.undo_action(&a);
    assert_eq!(b.get((0, 1)), Piece::encode(Color::White, Type::Pawn, true));
    assert_eq!(b.get((0, 0)), Piece::empty());
    assert_eq!(b, before);
}

#[test]
fn promotion_capture_restores_pawn_and_captured_piece() {
    let mut b = with_kings(Color::Black);
    let victim = Piece::encode(Color::White, Type::Rook, false);
    b.put((6, 6), Piece::encode(Color::Black, Type::Pawn, true));
    b.put((7, 7), victim);
    b.can_en_passant = Some(1);
    b.put((1, 4), Piece::encode(Color::White, Type::Pawn, true));
    let before = b;
    let knight = Piece::encode(Color::Black, Type::Knight, true);
    let a = Action::PromotionCapture(PromotionCapture {
        from: (6, 6),
        to: (7, 7),
        captured: victim,
        promoted_to: knight,
        prev_can_en_passant: Some(1),
    });
    b.apply_action(&a);
    assert_eq!(b.get((6, 6)), Piece::empty());
    assert_eq!(b.get((7, 7)), knight);
    assert_eq!(b.can_en_passant, None);
    b.undo_action(&a);
    assert_eq!(b.get((7, 7)), victim);
    assert_eq!(b, before);
}

#[test]
fn every_generated_action_is_undone_exactly() {
    let texts = [
        "rnbqkbnrpppppppp................................PPPPPPPPRNBQKBNRttttfw",
        "r...k..rpppq.ppp..n.bn....b.p.....B.P.....N.BN..PPPQ.PPPR...K..Rttttfb",
        "r...k..rpppq.ppp..n.bn....b.p.....B.P.....N.BN..PPPQ.PPPR...K..Rttttfw",
        "....k...P.......................................p.......R...K..Rfftffb",
        "....k....P..............ppP.....................P.......R...K..Rffff1w",
        "....k...........................ppP.....................R...K..Rffff2b",
    ];
    for text in texts {
        let mut b = Board::deserialize(text).unwrap();
        let before = b;
        let actions = b.get_possible_actions();
        assert_eq!(b, before);
        assert!(!actions.is_empty());
        for a in actions.iter() {
            b.apply_action(a);
            assert_ne!(b, before);
            assert_eq!(b.turn, before.turn.opposite());
            b.undo_action(a);
            assert_eq!(b, before);
        }
    }
}

#[test]
fn two_plies_are_undone_in_reverse_order() {
    let mut b =
        Board::deserialize("rnbqkbnrpppppppp................................PPPPPPPPRNBQKBNRttttfw")
            .unwrap();
    let start = b;
    let first = b.get_possible_actions();
    for a in first.iter() {
        b.apply_action(a);
        let middle = b;
        let second = b.get_possible_actions();
        assert_eq!(second.len(), 20);
        for c in second.iter() {
            b.apply_action(c);
            b.undo_action(c);
            assert_eq!(b, middle);
        }
        b.undo_action(a);
        assert_eq!(b, start);
    }
}

#[test]
fn double_step_lands_two_ranks_ahead_of_where_it_starts() {
    let mut b = bare(Color::White);
    b.put((5, 5), Piece::new(Color::White, Type::Pawn));
    let a = Action::PawnDoubleMove(PawnDoubleMove { from: (5, 5), prev_can_en_passant: None });
    b.apply_action(&a);
    assert_eq!(b.get((5, 5)), Piece::empty());
    assert_eq!(b.get((5, 4)), Piece::empty());
    assert_eq!(b.get((5, 3)), Piece::encode(Color::White, Type::Pawn, true));
    assert_eq!(b.can_en_passant, Some(5));
    b.undo_action(&a);
    assert_eq!(b.get((5, 5)), Piece::new(Color::White, Type::Pawn));
    assert_eq!(b.get((5, 3)), Piece::empty());
    let mut b = bare(Color::Black);
    b.put((0, 4), Piece::new(Color::Black, Type::Pawn));
    let a = Action::PawnDoubleMove(PawnDoubleMove { from: (0, 4), prev_can_en_passant: Some(6) });
    b.apply_action(&a);
    assert_eq!(b.get((0, 6)), Piece::encode(Color::Black, Type::Pawn, true));
    assert_eq!(b.get((0, 4)), Piece::empty());
    b.undo_action(&a);
    assert_eq!(b.get((0, 4)), Piece::new(Color::Black, Type::Pawn));
    assert_eq!(b.can_en_passant, Some(6));
}

#[test]
fn generated_double_step_of_an_unmoved_pawn_off_its_home_rank_is_played_as_listed() {
    let mut b = bare(Color::White);
    b.put((2, 4), Piece::new(Color::White, Type::Pawn));
    let actions = b.get_possible_actions();
    let double = actions.iter().find(|a| matches!(a, Action::PawnDoubleMove(_))).unwrap();
    b.apply_action(double);
    assert_eq!(b.get((2, 2)), Piece::encode(Color::White, Type::Pawn, true));
    assert_eq!(b.get((2, 4)), Piece::empty());
}
