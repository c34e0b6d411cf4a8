use chess_core::piece::{Color, Piece, Type};

const COLORS: [Color; 2] = [Color::Black, Color::White];
const KINDS: [Type; 6] =
    [Type::Pawn, Type::Rook, Type::Knight, Type::Bishop, Type::Queen, Type::King];

#[test]
fn encode_round_trips_colour_kind_and_flag() {
    for color in COLORS {
        for kind in KINDS {
            for moved in [false, true] {
                let p = Piece::encode(color, kind, moved);
                assert!(!p.is_empty());
                assert_eq!(p.color(), color);
                assert_eq!(p.type_(), kind);
                assert_eq!(p.has_moved(), moved);
            }
        }
    }
}

#[test]
fn new_builds_an_unmoved_piece() {
    for color in COLORS {
        for kind in KINDS {
            let p = Piece::new(color, kind);
            assert_eq!(p, Piece::encode(color, kind, false));
            assert!(!p.has_moved());
            assert_eq!(p.color(), color);
            assert_eq!(p.type_(), kind);
        }
    }
}

#[test]
fn empty_differs_from_every_piece() {
    let e = Piece::empty();
    assert!(e.is_empty());
    assert_eq!(e, Piece::empty());
    for color in COLORS {
        for kind in KINDS {
            for moved in [false, true] {
                assert_ne!(Piece::encode(color, kind, moved), e);
            }
        }
    }
}

#[test]
fn empty_reads_as_black_and_unmoved() {
    let e = Piece::empty();
    assert_eq!(e.color(), Color::Black);
    assert!(!e.has_moved());
}

#[test]
fn distinct_triples_give_distinct_pieces() {
    let mut all = Vec::new();
    for color in COLORS {
        for kind in KINDS {
            for moved in [false, true] {
                all.push(Piece::encode(color, kind, moved));
            }
        }
    }
    assert_eq!(all.len(), 24);
    for i in 0..all.len() {
        for j in 0..all.len() {
            assert_eq!(all[i] == all[j], i == j);
        }
    }
}

#[test]
fn with_moved_changes_the_flag_only() {
    for color in COLORS {
        for kind in KINDS {
            for before in [false, true] {
                for after in [false, true] {
                    let p = Piece::encode(color, kind, before).with_moved(after);
                    assert_eq!(p, Piece::encode(color, kind, after));
                }
            }
        }
    }
}

#[test]
fn with_moved_keeps_the_empty_square_empty() {
    assert_eq!(Piece::empty().with_moved(true), Piece::empty());
    assert_eq!(Piece::empty().with_moved(false), Piece::empty());
}

#[test]
fn marking_and_restoring_gives_the_piece_back() {
    for color in COLORS {
        for kind in KINDS {
            for moved in [false, true] {
                let p = Piece::encode(color, kind, moved);
                assert_eq!(p.with_moved(true).with_moved(p.has_moved()), p);
            }
        }
    }
}

#[test]
fn opposite_swaps_the_colours() {
    assert_eq!(Color::Black.opposite(), Color::White);
    assert_eq!(Color::White.opposite(), Color::Black);
    assert_eq!(Color::White.opposite().opposite(), Color::White);
}
