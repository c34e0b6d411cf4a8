//! What holds of the rules as a whole.

use vstd::prelude::*;
use crate::action::{Action, Square};
use crate::board::Board;
use crate::legal::GameState;
use crate::moves::promotion_kinds;
use crate::piece::{Color, Piece, Type};
use crate::position::{Position, pawn_home_rank, spec_double_step_rank, spec_double_step_square};

verus! {

/// Every action that the generator lists, made on a consistent position and
/// then taken back, gives the position back: squares, castling rights,
/// en-passant file and side to move.
pub proof fn law_undo_reverses_apply(p: Position, a: Action)
    requires
        p.consistent(),
        p.pseudo_legal().contains(a),
    ensures
        p.apply(a).undo(a) == p,
{
    p.lemma_pseudo_legal_allowed();
    p.lemma_undo_apply(a);
}

/// The same of boards: a board that shows a consistent position is, after a
/// generated action and its undoing, the board it was.
pub proof fn law_board_restored(before: Board, after: Board, restored: Board, a: Action)
    requires
        before@.consistent(),
        before@.pseudo_legal().contains(a),
        after@ == before@.apply(a),
        restored@ == after@.undo(a),
    ensures
        restored == before,
{
    law_undo_reverses_apply(before@, a);
    Board::lemma_view_injective(restored, before);
}

/// Every action that the generator lists leads from a consistent position
/// to a consistent position.
pub proof fn law_apply_keeps_consistent(p: Position, a: Action)
    requires
        p.consistent(),
        p.pseudo_legal().contains(a),
    ensures
        p.apply(a).consistent(),
{
    p.lemma_pseudo_legal_allowed();
    p.lemma_apply_consistent(a);
}

/// What the generator lists depends on the board alone: equal boards give
/// equal lists, action by action and in the same order.
pub proof fn law_generation_is_deterministic(a: Board, b: Board)
    requires
        a == b,
    ensures
        a@.pseudo_legal() == b@.pseudo_legal(),
        a@.legal() == b@.legal(),
{
}

/// Every legal action is among the pseudo-legal ones, and does not leave
/// the mover's king attacked.
pub proof fn law_legal_is_pseudo_legal(p: Position, a: Action)
    requires
        p.legal().contains(a),
    ensures
        p.pseudo_legal().contains(a),
        !p.apply(a).is_in_check(p.turn),
        !p.castles_through_attack(a),
{
    p.pseudo_legal().lemma_filter_contains_rev(|a: Action| p.leaves_king_safe(a), a);
}

/// The legal actions keep the generator's order: they are the pseudo-legal
/// list with some actions left out.
pub proof fn law_legal_keeps_order(p: Position)
    ensures
        p.legal().len() <= p.pseudo_legal().len(),
        forall|i: int| 0 <= i < p.legal().len() ==> p.leaves_king_safe(#[trigger] p.legal()[i]),
{
    let safe = |a: Action| p.leaves_king_safe(a);
    p.pseudo_legal().lemma_filter_len(safe);
    assert forall|i: int| 0 <= i < p.legal().len() implies p.leaves_king_safe(
        #[trigger] p.legal()[i],
    ) by {
        p.pseudo_legal().lemma_filter_pred(safe, i);
    }
}

/// An action after which the mover's own king is attacked is not legal.
pub proof fn law_check_is_not_legal(p: Position, a: Action)
    requires
        p.apply(a).is_in_check(p.turn),
    ensures
        !p.legal().contains(a),
{
    if p.legal().contains(a) {
        law_legal_is_pseudo_legal(p, a);
    }
}

/// A pseudo-legal action after which the mover's king is not attacked is
/// legal, unless it is a castling move that starts from or passes over an
/// attacked square.
pub proof fn law_safe_is_legal(p: Position, a: Action)
    requires
        p.pseudo_legal().contains(a),
        !p.apply(a).is_in_check(p.turn),
        !p.castles_through_attack(a),
    ensures
        p.legal().contains(a),
{
    let safe = |a: Action| p.leaves_king_safe(a);
    let i = choose|i: int| 0 <= i < p.pseudo_legal().len() && p.pseudo_legal()[i] == a;
    p.pseudo_legal().lemma_filter_contains(safe, i);
}

/// With no legal action, the position is checkmate of the side to move if
/// its king is attacked, and stalemate if it is not; with a legal action it
/// is neither.
pub proof fn law_terminal_states(p: Position)
    ensures
        p.legal().len() == 0 && p.is_in_check(p.turn) ==> p.state() == GameState::Checkmate(p.turn),
        p.legal().len() == 0 && !p.is_in_check(p.turn) ==> p.state() == GameState::Stalemate,
        p.legal().len() > 0 && p.is_in_check(p.turn) ==> p.state() == GameState::Check(p.turn),
        p.legal().len() > 0 && !p.is_in_check(p.turn) ==> p.state() == GameState::Playing,
{
}

/// The generator lists the pseudo-legal actions and no others: an action is
/// in its list exactly if a piece of the side to move makes it as pieces of
/// its kind do, onto squares that permit it, and the action holds what the
/// position was before it.
pub proof fn law_generator_lists_the_permitted(p: Position, a: Action)
    requires
        p.wf(),
    ensures
        p.pseudo_legal().contains(a) <==> p.permits(a),
{
    if p.pseudo_legal().contains(a) {
        p.lemma_generated_is_permitted(a);
    }
    if p.permits(a) {
        p.lemma_permitted_is_generated(a);
    }
}

/// A double step that the generator lists on a consistent position starts
/// on the pawn's home rank, and the file on which the pawn may then be taken
/// en passant is its own.
pub proof fn law_double_step_starts_at_home(p: Position, a: Action)
    requires
        p.consistent(),
        p.pseudo_legal().contains(a),
        a is PawnDoubleMove,
    ensures
        a->PawnDoubleMove_0.from.1 == pawn_home_rank(p.turn),
        spec_double_step_square(a->PawnDoubleMove_0.from, p.turn).1 == spec_double_step_rank(
            p.turn,
        ),
        p.apply(a).piece_at(spec_double_step_square(a->PawnDoubleMove_0.from, p.turn))
            == p.piece_at(a->PawnDoubleMove_0.from).spec_with_moved(true),
        p.apply(a).can_en_passant == Some(a->PawnDoubleMove_0.from.0),
{
    p.lemma_generated_is_permitted(a);
    let from = a->PawnDoubleMove_0.from;
    assert(p.at(from.0 as int, from.1 as int).is_kind(Type::Pawn));
    assert(from.1 == pawn_home_rank(p.turn));
}

/// No action is listed twice, neither among the pseudo-legal nor among the
/// legal ones.
pub proof fn law_no_action_listed_twice(p: Position)
    ensures
        p.pseudo_legal().no_duplicates(),
        p.legal().no_duplicates(),
{
    p.lemma_pseudo_legal_distinct();
    crate::distinct::lemma_filter_distinct(
        p.pseudo_legal(),
        |a: Action| p.leaves_king_safe(a),
    );
}

/// No square is the destination both of a move and of a capture: a move
/// goes to an empty square, a capture to one that holds a piece of the
/// other side.
pub proof fn law_move_and_capture_exclude(p: Position, a: Action, b: Action)
    requires
        p.wf(),
        p.pseudo_legal().contains(a),
        p.pseudo_legal().contains(b),
    ensures
        !(a matches Action::Move(m) && (b matches Action::Capture(c) && m.to == c.to)),
{
    p.lemma_generated_is_permitted(a);
    p.lemma_generated_is_permitted(b);
}

/// The legal actions are the pseudo-legal ones that leave the mover's king
/// safe, and no others.
pub proof fn law_legal_lists_the_safe(p: Position, a: Action)
    requires
        p.wf(),
    ensures
        p.legal().contains(a) <==> p.permits(a) && p.leaves_king_safe(a),
{
    law_generator_lists_the_permitted(p, a);
    if p.legal().contains(a) {
        law_legal_is_pseudo_legal(p, a);
    }
    if p.permits(a) && p.leaves_king_safe(a) {
        law_safe_is_legal(p, a);
    }
}

/// The action takes the piece on `to`, as a capture or as a capture with
/// promotion.
pub open spec fn captures_on(a: Action, to: Square) -> bool {
    ||| a matches Action::Capture(m) && m.to == to
    ||| a matches Action::PromotionCapture(m) && m.to == to
}

/// Whether a piece attacks a square does not depend on who is to move.
pub proof fn lemma_attacks_ignores_turn(p: Position, by: Color, fx: int, fy: int, tx: int, ty: int)
    ensures
        (Position { turn: by, ..p }).attacks(fx, fy, tx, ty) == p.attacks(fx, fy, tx, ty),
{
    let q = Position { turn: by, ..p };
    assert forall|k: int| #[trigger] q.free_on_way(fx, fy, tx, ty, k) == p.free_on_way(
        fx,
        fy,
        tx,
        ty,
        k,
    ) by {}
    assert(q.clear_between(fx, fy, tx, ty) == p.clear_between(fx, fy, tx, ty)) by {
        if q.clear_between(fx, fy, tx, ty) {
            assert forall|k: int|
                0 < k < crate::attack::spec_distance(fx, tx) || 0 < k
                    < crate::attack::spec_distance(fy, ty) implies #[trigger] p.free_on_way(
                fx,
                fy,
                tx,
                ty,
                k,
            ) by {
                assert(q.free_on_way(fx, fy, tx, ty, k));
            }
        }
        if p.clear_between(fx, fy, tx, ty) {
            assert forall|k: int|
                0 < k < crate::attack::spec_distance(fx, tx) || 0 < k
                    < crate::attack::spec_distance(fy, ty) implies #[trigger] q.free_on_way(
                fx,
                fy,
                tx,
                ty,
                k,
            ) by {
                assert(p.free_on_way(fx, fy, tx, ty, k));
            }
        }
    }
}

/// A square that holds a piece is attacked by the other side exactly if
/// that side, were it to move, would have a pseudo-legal action that takes
/// the piece.
pub proof fn law_attacked_means_capturable(p: Position, to: Square, by: Color)
    requires
        p.wf(),
        to.0 < 8,
        to.1 < 8,
        p.piece_at(to).is_color(by.spec_opposite()),
    ensures
        p.square_is_attacked(to.0 as int, to.1 as int, by) <==> exists|a: Action|
            #![trigger captures_on(a, to)]
            (Position { turn: by, ..p }).pseudo_legal().contains(a) && captures_on(a, to),
{
    let q = Position { turn: by, ..p };
    let tx = to.0 as int;
    let ty = to.1 as int;
    if p.square_is_attacked(tx, ty, by) {
        let (fx, fy) = choose|fx: int, fy: int| #[trigger] p.attacked_from(fx, fy, tx, ty, by);
        let from = (fx as u8, fy as u8);
        lemma_attacks_ignores_turn(p, by, fx, fy, tx, ty);
        assert(q.attacks(fx, fy, tx, ty));
        assert(q.at(fx, fy) == p.at(fx, fy));
        assert(q.own_piece_on(from));
        if q.piece_at(from).is_kind(Type::Pawn) && (ty == 0 || ty == 7) {
            let a = q.promotion_capture_on(fx, fy, tx, ty, Type::Queen);
            assert(promotion_kinds()[0] == Type::Queen);
            assert(q.promotes_to(Piece::spec_encode(by, Type::Queen, true)));
            assert(q.pawn_reaches_last_rank(from, to));
            assert(q.allows(a));
            assert(q.permits(a));
            q.lemma_permitted_is_generated(a);
            assert(captures_on(a, to));
        } else {
            let a = q.capture_on(fx, fy, tx, ty);
            assert(q.allows(a));
            assert(q.takes_on(from, to));
            assert(q.permits(a));
            q.lemma_permitted_is_generated(a);
            assert(captures_on(a, to));
        }
    }
    if exists|a: Action|
        #![trigger captures_on(a, to)]
        q.pseudo_legal().contains(a) && captures_on(a, to) {
        let a = choose|a: Action|
            #![trigger captures_on(a, to)]
            q.pseudo_legal().contains(a) && captures_on(a, to);
        q.lemma_generated_is_permitted(a);
        let from = a.origin();
        let fx = from.0 as int;
        let fy = from.1 as int;
        lemma_attacks_ignores_turn(p, by, fx, fy, tx, ty);
        assert(q.at(fx, fy) == p.at(fx, fy));
        match a {
            Action::Capture(m) => {
                assert(q.takes_on(m.from, m.to));
            },
            Action::PromotionCapture(m) => {
                assert(q.pawn_reaches_last_rank(m.from, m.to));
            },
            _ => {},
        }
        assert(q.attacks(fx, fy, tx, ty));
        assert(p.attacked_from(fx, fy, tx, ty, by));
    }
}

} // verus!
