use chess_core::action::{
    Action, Capture, Castle, EnPassant, Move, PawnDoubleMove, Promotion, PromotionCapture,
};
use chess_core::board::Board;
use chess_core::piece::{Color, Piece, Type};

const START: &str = "rnbqkbnrpppppppp................................PPPPPPPPRNBQKBNRttttfw";

fn read(text: &str) -> Board {
    Board::deserialize(text).unwrap()
}

fn bare(turn: Color) -> Board {
    Board {
        squares: [[Piece::empty(); 8]; 8],
        can_castle_black_queenside: false,
        can_castle_black_kingside: false,
        can_castle_white_queenside: false,
        can_castle_white_kingside: false,
        can_en_passant: None,
        turn,
    }
}

fn origin(a: &Action) -> (u8, u8) {
    match a {
        Action::Move(m) => m.from,
        Action::PawnDoubleMove(m) => m.from,
        Action::Capture(m) => m.from,
        Action::EnPassant(m) => m.from,
        Action::Castle(m) => (4, m.to.1),
        Action::Promotion(m) => m.from,
        Action::PromotionCapture(m) => m.from,
    }
}

fn from_square(actions: &[Action], sq: (u8, u8)) -> Vec<Action> {
    actions.iter().filter(|a| origin(a) == sq).copied().collect()
}

fn quiet(from: (u8, u8), to: (u8, u8), had_moved: bool) -> Action {
    Action::Move(Move { from, to, had_moved, prev_can_en_passant: None })
}

#[test]
fn starting_position_has_twenty_pseudo_legal_actions_in_scan_order() {
    let mut b = read(START);
    let actions = b.get_possible_actions();
    let mut expected = Vec::new();
    for x in 0..8u8 {
        expected.push(quiet((x, 6), (x, 5), false));
        expected.push(Action::PawnDoubleMove(PawnDoubleMove {
            from: (x, 6),
            prev_can_en_passant: None,
        }));
    }
    expected.push(quiet((1, 7), (2, 5), false));
    expected.push(quiet((1, 7), (0, 5), false));
    expected.push(quiet((6, 7), (7, 5), false));
    expected.push(quiet((6, 7), (5, 5), false));
    assert_eq!(actions, expected);
}

#[test]
fn black_moves_down_the_board_from_the_start() {
    let mut b = read("rnbqkbnrpppppppp................................PPPPPPPPRNBQKBNRttttfb");
    let actions = b.get_possible_actions();
    let mut expected = Vec::new();
    expected.push(quiet((1, 0), (2, 2), false));
    expected.push(quiet((1, 0), (0, 2), false));
    expected.push(quiet((6, 0), (7, 2), false));
    expected.push(quiet((6, 0), (5, 2), false));
    for x in 0..8u8 {
        expected.push(quiet((x, 1), (x, 2), false));
        expected.push(Action::PawnDoubleMove(PawnDoubleMove {
            from: (x, 1),
            prev_can_en_passant: None,
        }));
    }
    assert_eq!(actions, expected);
}

#[test]
fn generating_twice_gives_the_same_sequence() {
    for text in [
        START,
        "r...k..rpppq.ppp..n.bn....b.p.....B.P.....N.BN..PPPQ.PPPR...K..Rttttfb",
        "....k....P..............ppP.....................P.......R...K..Rffff1w",
    ] {
        let mut b = read(text);
        let before = b;
        let first = b.get_possible_actions();
        let second = b.get_possible_actions();
        assert_eq!(first, second);
        assert_eq!(b, before);
        let mut copy = before;
        assert_eq!(copy.get_possible_actions(), first);
    }
}

#[test]
fn only_pieces_of_the_side_to_move_are_listed() {
    let mut b = read("r...k..rpppq.ppp..n.bn....b.p.....B.P.....N.BN..PPPQ.PPPR...K..Rttttfb");
    for a in b.get_possible_actions() {
        let p = b.get(origin(&a));
        assert!(!p.is_empty());
        assert_eq!(p.color(), Color::Black);
    }
    b.turn = Color::White;
    for a in b.get_possible_actions() {
        assert_eq!(b.get(origin(&a)).color(), Color::White);
    }
}

#[test]
fn empty_board_has_no_actions() {
    assert!(bare(Color::White).get_possible_actions().is_empty());
    assert!(bare(Color::Black).get_possible_actions().is_empty());
}

#[test]
fn knight_in_the_middle_has_eight_jumps_in_fixed_order() {
    let mut b = bare(Color::White);
    b.put((3, 3), Piece::encode(Color::White, Type::Knight, true));
    let actions = b.get_possible_actions();
    let targets = [(4, 5), (5, 4), (5, 2), (4, 1), (2, 1), (1, 2), (1, 4), (2, 5)];
    let expected: Vec<Action> = targets.iter().map(|&t| quiet((3, 3), t, true)).collect();
    assert_eq!(actions, expected);
}

#[test]
fn knight_never_moves_and_captures_on_one_square() {
    let mut b = bare(Color::Black);
    b.put((0, 0), Piece::encode(Color::Black, Type::Knight, true));
    let victim = Piece::encode(Color::White, Type::Pawn, true);
    b.put((1, 2), victim);
    b.put((2, 1), Piece::encode(Color::Black, Type::Pawn, false));
    let actions = from_square(&b.get_possible_actions(), (0, 0));
    assert_eq!(
        actions,
        vec![Action::Capture(Capture {
            from: (0, 0),
            to: (1, 2),
            captured: victim,
            had_moved: true,
            prev_can_en_passant: None,
        })]
    );
}

#[test]
fn rook_rays_stop_at_the_first_piece() {
    let mut b = bare(Color::White);
    b.put((3, 3), Piece::encode(Color::White, Type::Rook, true));
    let victim = Piece::encode(Color::Black, Type::Bishop, true);
    b.put((5, 3), victim);
    b.put((3, 5), Piece::encode(Color::White, Type::Pawn, true));
    b.put((7, 3), Piece::encode(Color::Black, Type::Queen, true));
    let actions = from_square(&b.get_possible_actions(), (3, 3));
    let expected = vec![
        quiet((3, 3), (4, 3), true),
        Action::Capture(Capture {
            from: (3, 3),
            to: (5, 3),
            captured: victim,
            had_moved: true,
            prev_can_en_passant: None,
        }),
        quiet((3, 3), (2, 3), true),
        quiet((3, 3), (1, 3), true),
        quiet((3, 3), (0, 3), true),
        quiet((3, 3), (3, 4), true),
        quiet((3, 3), (3, 2), true),
        quiet((3, 3), (3, 1), true),
        quiet((3, 3), (3, 0), true),
    ];
    assert_eq!(actions, expected);
}

#[test]
fn bishop_walks_the_four_diagonals() {
    let mut b = bare(Color::Black);
    b.put((1, 1), Piece::encode(Color::Black, Type::Bishop, true));
    let actions = b.get_possible_actions();
    let targets =
        [(2, 2), (3, 3), (4, 4), (5, 5), (6, 6), (7, 7), (2, 0), (0, 2), (0, 0)];
    let expected: Vec<Action> = targets.iter().map(|&t| quiet((1, 1), t, true)).collect();
    assert_eq!(actions, expected);
}

#[test]
fn queen_lists_the_diagonals_before_the_lines() {
    let mut b = bare(Color::White);
    b.put((0, 0), Piece::encode(Color::White, Type::Queen, true));
    let actions = b.get_possible_actions();
    assert_eq!(actions.len(), 21);
    let mut expected = Vec::new();
    for k in 1..8u8 {
        expected.push(quiet((0, 0), (k, k), true));
    }
    for k in 1..8u8 {
        expected.push(quiet((0, 0), (k, 0), true));
    }
    for k in 1..8u8 {
        expected.push(quiet((0, 0), (0, k), true));
    }
    assert_eq!(actions, expected);
}

#[test]
fn queen_in_the_open_reaches_twenty_seven_squares() {
    let mut b = bare(Color::White);
    b.put((3, 4), Piece::encode(Color::White, Type::Queen, true));
    assert_eq!(b.get_possible_actions().len(), 27);
}

#[test]
fn king_steps_to_its_eight_neighbours() {
    let mut b = bare(Color::White);
    b.put((4, 4), Piece::encode(Color::White, Type::King, true));
    let actions = b.get_possible_actions();
    let targets = [(5, 5), (5, 4), (5, 3), (4, 5), (4, 3), (3, 5), (3, 4), (3, 3)];
    let expected: Vec<Action> = targets.iter().map(|&t| quiet((4, 4), t, true)).collect();
    assert_eq!(actions, expected);
}

#[test]
fn king_in_the_corner_has_three_steps() {
    let mut b = bare(Color::Black);
    b.put((7, 7), Piece::encode(Color::Black, Type::King, true));
    assert_eq!(b.get_possible_actions().len(), 3);
}

#[test]
fn pawn_single_step_only_once_it_has_moved() {
    let mut b = bare(Color::White);
    b.put((2, 5), Piece::encode(Color::White, Type::Pawn, true));
    assert_eq!(b.get_possible_actions(), vec![quiet((2, 5), (2, 4), true)]);
}

#[test]
fn pawn_is_blocked_by_a_piece_in_front() {
    let mut b = bare(Color::White);
    b.put((2, 6), Piece::new(Color::White, Type::Pawn));
    b.put((2, 5), Piece::encode(Color::Black, Type::Knight, true));
    assert!(from_square(&b.get_possible_actions(), (2, 6)).is_empty());
}

#[test]
fn pawn_double_step_needs_both_squares_empty() {
    let mut b = bare(Color::Black);
    b.put((5, 1), Piece::new(Color::Black, Type::Pawn));
    b.put((5, 3), Piece::encode(Color::White, Type::Rook, true));
    assert_eq!(
        from_square(&b.get_possible_actions(), (5, 1)),
        vec![quiet((5, 1), (5, 2), false)]
    );
}

#[test]
fn pawn_captures_diagonally_forward_only_enemies() {
    let mut b = bare(Color::White);
    b.put((3, 4), Piece::encode(Color::White, Type::Pawn, true));
    let left = Piece::encode(Color::Black, Type::Rook, true);
    b.put((2, 3), left);
    b.put((4, 3), Piece::encode(Color::White, Type::Knight, true));
    b.put((3, 3), Piece::encode(Color::Black, Type::Pawn, true));
    b.put((2, 5), Piece::encode(Color::Black, Type::Queen, true));
    assert_eq!(
        from_square(&b.get_possible_actions(), (3, 4)),
        vec![Action::Capture(Capture {
            from: (3, 4),
            to: (2, 3),
            captured: left,
            had_moved: true,
            prev_can_en_passant: None,
        })]
    );
}

#[test]
fn pawn_on_the_edge_file_captures_inwards() {
    let mut b = bare(Color::Black);
    b.put((0, 4), Piece::encode(Color::Black, Type::Pawn, true));
    let victim = Piece::encode(Color::White, Type::Bishop, true);
    b.put((1, 5), victim);
    b.put((7, 5), Piece::encode(Color::White, Type::Bishop, true));
    assert_eq!(
        from_square(&b.get_possible_actions(), (0, 4)),
        vec![
            quiet((0, 4), (0, 5), true),
            Action::Capture(Capture {
                from: (0, 4),
                to: (1, 5),
                captured: victim,
                had_moved: true,
                prev_can_en_passant: None,
            }),
        ]
    );
}

#[test]
fn en_passant_is_offered_once_to_the_neighbouring_pawn() {
    let mut b = bare(Color::White);
    b.put((4, 7), Piece::new(Color::White, Type::King));
    b.put((4, 0), Piece::new(Color::Black, Type::King));
    b.put((4, 3), Piece::encode(Color::White, Type::Pawn, true));
    b.put((3, 3), Piece::encode(Color::Black, Type::Pawn, true));
    b.can_en_passant = Some(3);
    let before = b;
    let legal = b.get_legal_actions();
    assert_eq!(b, before);
    let passing: Vec<&Action> =
        legal.iter().filter(|a| matches!(a, Action::EnPassant(_))).collect();
    assert_eq!(passing, vec![&Action::EnPassant(EnPassant { from: (4, 3), to: (3, 2) })]);
    let pseudo = b.get_possible_actions();
    assert_eq!(pseudo.iter().filter(|a| matches!(a, Action::EnPassant(_))).count(), 1);
    b.apply_action(passing[0]);
    assert_eq!(b.get((3, 3)), Piece::empty());
    assert_eq!(b.get((3, 2)), Piece::encode(Color::White, Type::Pawn, true));
}

#[test]
fn en_passant_needs_the_file_next_door_and_the_right_rank() {
    let mut b = bare(Color::White);
    b.put((6, 3), Piece::encode(Color::White, Type::Pawn, true));
    b.put((3, 3), Piece::encode(Color::Black, Type::Pawn, true));
    b.put((2, 4), Piece::encode(Color::White, Type::Pawn, true));
    b.can_en_passant = Some(3);
    let pseudo = b.get_possible_actions();
    assert_eq!(pseudo.iter().filter(|a| matches!(a, Action::EnPassant(_))).count(), 0);
    b.can_en_passant = None;
    b.put((4, 3), Piece::encode(Color::White, Type::Pawn, true));
    let pseudo = b.get_possible_actions();
    assert_eq!(pseudo.iter().filter(|a| matches!(a, Action::EnPassant(_))).count(), 0);
}

#[test]
fn en_passant_from_both_sides_of_the_passed_pawn() {
    let mut b = read("....k...........................pPp.....................R...K..Rffff1b");
    let pseudo = b.get_possible_actions();
    let passing: Vec<Action> =
        pseudo.iter().filter(|a| matches!(a, Action::EnPassant(_))).copied().collect();
    assert_eq!(
        passing,
        vec![
            Action::EnPassant(EnPassant { from: (0, 4), to: (1, 5) }),
            Action::EnPassant(EnPassant { from: (2, 4), to: (1, 5) }),
        ]
    );
}

#[test]
fn promotion_replaces_the_plain_move_on_the_last_rank() {
    let mut b = bare(Color::White);
    b.put((4, 7), Piece::new(Color::White, Type::King));
    b.put((4, 0), Piece::new(Color::Black, Type::King));
    b.put((0, 1), Piece::encode(Color::White, Type::Pawn, true));
    let pawn_actions = from_square(&b.get_possible_actions(), (0, 1));
    let expected: Vec<Action> = [Type::Queen, Type::Rook, Type::Bishop, Type::Knight]
        .iter()
        .map(|&k| {
            Action::Promotion(Promotion {
                from: (0, 1),
                to: (0, 0),
                promoted_to: Piece::encode(Color::White, k, true),
                prev_can_en_passant: None,
            })
        })
        .collect();
    assert_eq!(pawn_actions, expected);
    assert_eq!(pawn_actions.iter().filter(|a| matches!(a, Action::Move(_))).count(), 0);
    assert_eq!(from_square(&b.get_legal_actions(), (0, 1)), expected);
}

#[test]
fn black_promotes_on_rank_seven_and_captures_into_promotion() {
    let mut b = bare(Color::Black);
    b.put((6, 6), Piece::encode(Color::Black, Type::Pawn, true));
    let victim = Piece::new(Color::White, Type::Rook);
    b.put((7, 7), victim);
    b.put((6, 7), Piece::new(Color::White, Type::Knight));
    let actions = b.get_possible_actions();
    let expected: Vec<Action> = [Type::Queen, Type::Rook, Type::Bishop, Type::Knight]
        .iter()
        .map(|&k| {
            Action::PromotionCapture(PromotionCapture {
                from: (6, 6),
                to: (7, 7),
                captured: victim,
                promoted_to: Piece::encode(Color::Black, k, true),
                prev_can_en_passant: None,
            })
        })
        .collect();
    assert_eq!(actions, expected);
}

#[test]
fn pawn_on_the_last_rank_has_nowhere_to_go() {
    let mut b = bare(Color::White);
    b.put((3, 0), Piece::encode(Color::White, Type::Pawn, true));
    assert!(b.get_possible_actions().is_empty());
    let mut b = bare(Color::Black);
    b.put((3, 7), Piece::encode(Color::Black, Type::Pawn, true));
    assert!(b.get_possible_actions().is_empty());
}

fn castles(actions: &[Action]) -> Vec<Action> {
    actions.iter().filter(|a| matches!(a, Action::Castle(_))).copied().collect()
}

#[test]
fn blocked_castle_is_in_neither_list() {
    let mut b = read("....k.....................................................R.K.NRfffffw");
    b.can_castle_white_kingside = true;
    assert!(castles(&b.get_possible_actions()).is_empty());
    assert!(castles(&b.get_legal_actions()).is_empty());
    let mut b = read("....k.......................................................KB.Rffftfw");
    assert!(b.can_castle_white_kingside);
    assert!(castles(&b.get_possible_actions()).is_empty());
    assert!(castles(&b.get_legal_actions()).is_empty());
}

#[test]
fn free_castle_is_listed_queenside_first() {
    let mut b = read("....k...................................................R...K..Rffttfw");
    assert_eq!(
        castles(&b.get_possible_actions()),
        vec![
            Action::Castle(Castle { to: (2, 7), prev_can_en_passant: None }),
            Action::Castle(Castle { to: (6, 7), prev_can_en_passant: None }),
        ]
    );
    let mut b = read("r...k..r................................................R...K..Rttttfb");
    assert_eq!(
        castles(&b.get_possible_actions()),
        vec![
            Action::Castle(Castle { to: (2, 0), prev_can_en_passant: None }),
            Action::Castle(Castle { to: (6, 0), prev_can_en_passant: None }),
        ]
    );
}

#[test]
fn castle_needs_the_right_and_unmoved_king_and_rook() {
    let mut b = read("....k...................................................R...K..Rffttfw");
    b.can_castle_white_kingside = false;
    assert_eq!(
        castles(&b.get_possible_actions()),
        vec![Action::Castle(Castle { to: (2, 7), prev_can_en_passant: None })]
    );
    b.can_castle_white_kingside = true;
    b.put((0, 7), Piece::encode(Color::White, Type::Rook, true));
    assert_eq!(
        castles(&b.get_possible_actions()),
        vec![Action::Castle(Castle { to: (6, 7), prev_can_en_passant: None })]
    );
    b.put((4, 7), Piece::encode(Color::White, Type::King, true));
    assert!(castles(&b.get_possible_actions()).is_empty());
}

#[test]
fn queenside_castle_needs_three_empty_squares() {
    for blocked in [1u8, 2, 3] {
        let mut b = read("....k...................................................R...K..Rffttfw");
        b.put((blocked, 7), Piece::encode(Color::White, Type::Knight, true));
        assert_eq!(
            castles(&b.get_possible_actions()),
            vec![Action::Castle(Castle { to: (6, 7), prev_can_en_passant: None })]
        );
    }
}

#[test]
fn actions_record_the_en_passant_file_they_clear() {
    let mut b = read("....k...........................pPp.....................R...K..Rffff1b");
    for a in b.get_possible_actions() {
        match a {
            Action::Move(m) => assert_eq!(m.prev_can_en_passant, Some(1)),
            Action::Capture(m) => assert_eq!(m.prev_can_en_passant, Some(1)),
            Action::PawnDoubleMove(m) => assert_eq!(m.prev_can_en_passant, Some(1)),
            Action::Castle(m) => assert_eq!(m.prev_can_en_passant, Some(1)),
            Action::Promotion(m) => assert_eq!(m.prev_can_en_passant, Some(1)),
            Action::PromotionCapture(m) => assert_eq!(m.prev_can_en_passant, Some(1)),
            Action::EnPassant(m) => assert_eq!(m.to.0, 1),
        }
    }
}

#[test]
fn en_passant_file_off_the_board_offers_nothing() {
    let mut b = bare(Color::White);
    b.put((7, 3), Piece::encode(Color::White, Type::Pawn, true));
    b.can_en_passant = Some(8);
    assert_eq!(b.get_possible_actions(), vec![Action::Move(Move {
        from: (7, 3),
        to: (7, 2),
        had_moved: true,
        prev_can_en_passant: Some(8),
    })]);
}

#[test]
fn no_action_is_listed_twice() {
    for text in [
        START,
        "r...k..rpppq.ppp..n.bn....b.p.....B.P.....N.BN..PPPQ.PPPR...K..Rttttfb",
        "r...k..rpppq.ppp..n.bn....b.p.....B.P.....N.BN..PPPQ.PPPR...K..Rttttfw",
        "....k....P..............ppP.....................P.......R...K..Rffff1w",
        "....k...........................pPp.....................R...K..Rffff1b",
        "r.......pP......................................p.......R...K..Rfftffw",
    ] {
        let mut b = read(text);
        for list in [b.get_possible_actions(), b.get_legal_actions()] {
            for i in 0..list.len() {
                for j in 0..i {
                    assert_ne!(list[i], list[j]);
                }
            }
        }
    }
}

#[test]
fn no_square_is_both_moved_to_and_captured_on() {
    let mut b = read("r...k..rpppq.ppp..n.bn....b.p.....B.P.....N.BN..PPPQ.PPPR...K..Rttttfw");
    let actions = b.get_possible_actions();
    for a in actions.iter() {
        for c in actions.iter() {
            if let (Action::Move(m), Action::Capture(k)) = (a, c) {
                assert_ne!(m.to, k.to);
            }
        }
    }
    assert!(actions.iter().any(|a| matches!(a, Action::Capture(_))));
    assert!(actions.iter().any(|a| matches!(a, Action::Move(_))));
}
