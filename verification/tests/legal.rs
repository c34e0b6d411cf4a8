use chess_core::action::{Action, Capture, Move, PawnDoubleMove};
use chess_core::ai;
use chess_core::board::Board;
use chess_core::legal::GameState;
use chess_core::piece::{Color, Piece, Type};

const START: &str = "rnbqkbnrpppppppp................................PPPPPPPPRNBQKBNRttttfw";

fn read(text: &str) -> Board {
    Board::deserialize(text).unwrap()
}

fn bare(turn: Color) -> Board {
    Board {
        squares: [[Piece::empty(); 8]; 8],
        can_castle_black_queenside: false,
        can_castle_black_kingside: false,
        can_castle_white_queenside: false,
        can_castle_white_kingside: false,
        can_en_passant: None,
        turn,
    }
}

fn destination(a: &Action) -> (u8, u8) {
    match a {
        Action::Move(m) => m.to,
        Action::PawnDoubleMove(m) => (m.from.0, if m.from.1 == 1 { 3 } else { 4 }),
        Action::Capture(m) => m.to,
        Action::EnPassant(m) => m.to,
        Action::Castle(m) => m.to,
        Action::Promotion(m) => m.to,
        Action::PromotionCapture(m) => m.to,
    }
}

fn origin(a: &Action) -> (u8, u8) {
    match a {
        Action::Move(m) => m.from,
        Action::PawnDoubleMove(m) => m.from,
        Action::Capture(m) => m.from,
        Action::EnPassant(m) => m.from,
        Action::Castle(m) => (4, m.to.1),
        Action::Promotion(m) => m.from,
        Action::PromotionCapture(m) => m.from,
    }
}

/// The legal actions, computed the slow way: each candidate is tried on a copy.
fn legal_by_copy(b: &Board) -> Vec<Action> {
    let mut scratch = *b;
    let mut out = Vec::new();
    for a in scratch.get_possible_actions() {
        let mut after = *b;
        after.apply_action(&a);
        if !after.is_in_check(b.turn) && !b.castles_through_attack(&a) {
            out.push(a);
        }
    }
    out
}

const SAMPLES: [&str; 8] = [
    START,
    "rnbqkbnrpppppppp................................PPPPPPPPRNBQKBNRttttfb",
    "r...k..rpppq.ppp..n.bn....b.p.....B.P.....N.BN..PPPQ.PPPR...K..Rttttfb",
    "r...k..rpppq.ppp..n.bn....b.p.....B.P.....N.BN..PPPQ.PPPR...K..Rttttfw",
    "....k....P..............ppP.....................P.......R...K..Rffff1w",
    "k........Q........K.............................................fffffb",
    "k................QK.............................................fffffb",
    "....k.......................................................K..Rffftfw",
];

#[test]
fn starting_position_has_twenty_legal_actions() {
    let mut b = read(START);
    let before = b;
    let legal = b.get_legal_actions();
    assert_eq!(b, before);
    assert_eq!(legal.len(), 20);
    let single = legal.iter().filter(|a| matches!(a, Action::Move(m) if m.from.1 == 6)).count();
    let double = legal.iter().filter(|a| matches!(a, Action::PawnDoubleMove(_))).count();
    let knight = legal.iter().filter(|a| matches!(a, Action::Move(m) if m.from.1 == 7)).count();
    assert_eq!((single, double, knight), (8, 8, 4));
    assert_eq!(legal, b.get_possible_actions());
}

#[test]
fn legal_actions_are_pseudo_legal_and_keep_their_order() {
    for text in SAMPLES {
        let mut b = read(text);
        let pseudo = b.get_possible_actions();
        let legal = b.get_legal_actions();
        let mut at = 0;
        for a in legal.iter() {
            while at < pseudo.len() && pseudo[at] != *a {
                at += 1;
            }
            assert!(at < pseudo.len());
            at += 1;
        }
    }
}

#[test]
fn legal_actions_are_those_that_leave_the_king_safe() {
    for text in SAMPLES {
        let mut b = read(text);
        let before = b;
        assert_eq!(b.get_legal_actions(), legal_by_copy(&before));
        assert_eq!(b, before);
    }
}

#[test]
fn an_action_that_leaves_the_mover_in_check_is_not_legal() {
    for text in SAMPLES {
        let mut b = read(text);
        let mover = b.turn;
        let legal = b.get_legal_actions();
        for a in b.get_possible_actions() {
            let mut after = b;
            after.apply_action(&a);
            assert_eq!(
                legal.contains(&a),
                !after.is_in_check(mover) && !b.castles_through_attack(&a)
            );
            if after.is_in_check(mover) {
                assert!(!legal.contains(&a));
            }
        }
    }
}

#[test]
fn pinned_rook_stays_on_its_file() {
    let mut b = bare(Color::White);
    b.put((4, 7), Piece::encode(Color::White, Type::King, true));
    b.put((4, 5), Piece::encode(Color::White, Type::Rook, true));
    let attacker = Piece::encode(Color::Black, Type::Rook, true);
    b.put((4, 1), attacker);
    b.put((0, 0), Piece::encode(Color::Black, Type::King, true));
    let pseudo = b.get_possible_actions();
    assert_eq!(pseudo.iter().filter(|a| origin(a) == (4, 5)).count(), 12);
    let legal = b.get_legal_actions();
    let rook: Vec<Action> = legal.iter().filter(|a| origin(a) == (4, 5)).copied().collect();
    let expected = vec![
        Action::Move(Move { from: (4, 5), to: (4, 6), had_moved: true, prev_can_en_passant: None }),
        Action::Move(Move { from: (4, 5), to: (4, 4), had_moved: true, prev_can_en_passant: None }),
        Action::Move(Move { from: (4, 5), to: (4, 3), had_moved: true, prev_can_en_passant: None }),
        Action::Move(Move { from: (4, 5), to: (4, 2), had_moved: true, prev_can_en_passant: None }),
        Action::Capture(Capture {
            from: (4, 5),
            to: (4, 1),
            captured: attacker,
            had_moved: true,
            prev_can_en_passant: None,
        }),
    ];
    assert_eq!(rook, expected);
}

#[test]
fn king_does_not_step_onto_an_attacked_square() {
    let mut b = bare(Color::Black);
    b.put((4, 0), Piece::encode(Color::Black, Type::King, true));
    b.put((3, 7), Piece::encode(Color::White, Type::Rook, true));
    b.put((0, 7), Piece::encode(Color::White, Type::King, true));
    let legal = b.get_legal_actions();
    let targets: Vec<(u8, u8)> = legal.iter().map(destination).collect();
    assert_eq!(targets, vec![(5, 1), (5, 0), (4, 1)]);
}

fn legal_castles(text: &str) -> usize {
    let mut b = read(text);
    let pseudo = b.get_possible_actions();
    assert_eq!(pseudo.iter().filter(|a| matches!(a, Action::Castle(_))).count(), 1);
    b.get_legal_actions().iter().filter(|a| matches!(a, Action::Castle(_))).count()
}

#[test]
fn castle_is_legal_when_no_square_of_the_king_is_attacked() {
    assert_eq!(legal_castles("....k.......................................................K..Rffftfw"), 1);
    assert_eq!(legal_castles("....k..r....................................................K..Rffftfw"), 1);
}

#[test]
fn castle_into_check_is_not_legal() {
    assert_eq!(legal_castles("....k.r.....................................................K..Rffftfw"), 0);
}

#[test]
fn castle_through_an_attacked_square_is_not_legal() {
    assert_eq!(legal_castles("....kr......................................................K..Rffftfw"), 0);
    assert_eq!(legal_castles("...rk...................................................R...K...fftffw"), 0);
}

#[test]
fn castle_out_of_check_is_not_legal() {
    assert_eq!(legal_castles("....k.......................r...............................K..Rffftfw"), 0);
}

#[test]
fn only_castling_moves_are_tested_for_the_squares_passed() {
    let mut b = read("....kr......................................................K..Rffftfw");
    for a in b.get_possible_actions() {
        assert_eq!(b.castles_through_attack(&a), matches!(a, Action::Castle(_)));
    }
}

#[test]
fn check_must_be_answered() {
    let mut b = read(".....R...........k....................................PPr......Kfffffw");
    assert!(b.is_check());
    let legal = b.get_legal_actions();
    assert_eq!(legal.len(), 1);
    assert_eq!(origin(&legal[0]), (5, 0));
    assert_eq!(destination(&legal[0]), (5, 7));
    assert_eq!(b.classify_state(), GameState::Check(Color::White));
}

#[test]
fn queen_next_to_the_cornered_king_is_checkmate() {
    let b = read("k........Q........K.............................................fffffb");
    assert!(b.is_check());
    assert!(b.is_in_check(Color::Black));
    assert!(!b.is_in_check(Color::White));
    assert!(b.is_checkmate());
    assert!(!b.is_stalemate());
    assert_eq!(b.classify_state(), GameState::Checkmate(Color::Black));
    let mut copy = b;
    assert!(copy.get_legal_actions().is_empty());
    assert_eq!(copy.get_possible_actions().len(), 3);
}

#[test]
fn back_rank_mate_of_white() {
    let b = read("....k...........................................PPPPPPPPr...K...fffffw");
    assert!(b.is_check());
    assert!(b.is_checkmate());
    assert_eq!(b.classify_state(), GameState::Checkmate(Color::White));
}

#[test]
fn cornered_king_without_check_is_stalemate() {
    let b = read("k................QK.............................................fffffb");
    assert!(!b.is_check());
    assert!(b.is_stalemate());
    assert!(!b.is_checkmate());
    assert_eq!(b.classify_state(), GameState::Stalemate);
    let mut copy = b;
    assert!(copy.get_legal_actions().is_empty());
}

#[test]
fn attacked_king_with_a_way_out_is_check() {
    let b = read("....k...........................................K.......R...R...fffffb");
    assert!(b.is_check());
    assert!(!b.is_checkmate());
    assert!(!b.is_stalemate());
    assert_eq!(b.classify_state(), GameState::Check(Color::Black));
}

#[test]
fn starting_position_is_playing() {
    let b = read(START);
    assert!(!b.is_check());
    assert!(!b.is_checkmate());
    assert!(!b.is_stalemate());
    assert_eq!(b.classify_state(), GameState::Playing);
}

#[test]
fn classification_follows_check_and_the_legal_list() {
    for text in SAMPLES {
        let b = read(text);
        let mut copy = b;
        let stuck = copy.get_legal_actions().is_empty();
        let check = b.is_in_check(b.turn);
        let expected = match (stuck, check) {
            (true, true) => GameState::Checkmate(b.turn),
            (true, false) => GameState::Stalemate,
            (false, true) => GameState::Check(b.turn),
            (false, false) => GameState::Playing,
        };
        assert_eq!(b.classify_state(), expected);
        assert_eq!(b.is_checkmate(), stuck && check);
        assert_eq!(b.is_stalemate(), stuck && !check);
        assert_eq!(b.is_check(), check);
    }
}

#[test]
fn pawn_attacks_diagonally_forward_whatever_stands_there() {
    let mut b = bare(Color::White);
    b.put((3, 4), Piece::encode(Color::White, Type::Pawn, true));
    assert!(b.square_is_attacked((2, 3), Color::White));
    assert!(b.square_is_attacked((4, 3), Color::White));
    assert!(!b.square_is_attacked((3, 3), Color::White));
    assert!(!b.square_is_attacked((2, 5), Color::White));
    assert!(!b.square_is_attacked((4, 5), Color::White));
    assert!(!b.square_is_attacked((2, 3), Color::Black));
    b.put((3, 4), Piece::encode(Color::Black, Type::Pawn, true));
    assert!(b.square_is_attacked((2, 5), Color::Black));
    assert!(b.square_is_attacked((4, 5), Color::Black));
    assert!(!b.square_is_attacked((3, 5), Color::Black));
    assert!(!b.square_is_attacked((2, 3), Color::Black));
}

#[test]
fn sliding_attacks_are_blocked_by_any_piece() {
    let mut b = bare(Color::White);
    b.put((0, 0), Piece::encode(Color::Black, Type::Queen, true));
    assert!(b.square_is_attacked((7, 7), Color::Black));
    assert!(b.square_is_attacked((0, 7), Color::Black));
    assert!(b.square_is_attacked((7, 0), Color::Black));
    assert!(!b.square_is_attacked((1, 2), Color::Black));
    assert!(!b.square_is_attacked((0, 0), Color::Black));
    b.put((3, 3), Piece::encode(Color::Black, Type::Pawn, true));
    assert!(b.square_is_attacked((2, 2), Color::Black));
    assert!(b.square_is_attacked((3, 3), Color::Black));
    assert!(!b.square_is_attacked((5, 5), Color::Black));
    b.put((0, 3), Piece::encode(Color::White, Type::Knight, true));
    assert!(b.square_is_attacked((0, 3), Color::Black));
    assert!(!b.square_is_attacked((0, 4), Color::Black));
}

#[test]
fn attacks_of_each_kind_from_one_square() {
    let count = |kind: Type| {
        let mut b = bare(Color::White);
        b.put((3, 3), Piece::encode(Color::White, kind, true));
        let mut n = 0;
        for x in 0..8u8 {
            for y in 0..8u8 {
                assert_eq!(b.attacks((3, 3), (x, y)), b.square_is_attacked((x, y), Color::White));
                if b.attacks((3, 3), (x, y)) {
                    n += 1;
                }
            }
        }
        n
    };
    assert_eq!(count(Type::Pawn), 2);
    assert_eq!(count(Type::Knight), 8);
    assert_eq!(count(Type::Bishop), 13);
    assert_eq!(count(Type::Rook), 14);
    assert_eq!(count(Type::Queen), 27);
    assert_eq!(count(Type::King), 8);
}

#[test]
fn an_empty_square_attacks_nothing() {
    let b = bare(Color::White);
    for x in 0..8u8 {
        for y in 0..8u8 {
            assert!(!b.attacks((0, 0), (x, y)));
            assert!(!b.square_is_attacked((x, y), Color::White));
            assert!(!b.square_is_attacked((x, y), Color::Black));
        }
    }
    assert!(!b.is_in_check(Color::White));
    assert!(!b.is_in_check(Color::Black));
}

#[test]
fn non_pawn_captures_land_on_attacked_squares() {
    for text in SAMPLES {
        let mut b = read(text);
        for a in b.get_possible_actions() {
            if let Action::Capture(Capture { from, to, .. }) = a {
                assert!(b.attacks(from, to));
                assert!(b.square_is_attacked(to, b.turn));
            }
        }
    }
}

#[test]
fn best_move_is_the_last_legal_action() {
    let mut b = read(START);
    let before = b;
    let best = ai::get_best_move(&mut b);
    assert_eq!(b, before);
    assert_eq!(
        best,
        Action::Move(Move { from: (6, 7), to: (5, 5), had_moved: false, prev_can_en_passant: None })
    );
    assert_eq!(Some(&best), b.get_legal_actions().last());
    let mut b = read("rnbqkbnrpppppppp................................PPPPPPPPRNBQKBNRttttfb");
    assert_eq!(
        ai::get_best_move(&mut b),
        Action::PawnDoubleMove(PawnDoubleMove { from: (7, 1), prev_can_en_passant: None })
    );
}
