//! The legal moves: those that do not leave the mover's king attacked; and
//! what the position is called when there are none.

use vstd::prelude::*;
use crate::action::{Action, castle_squares, spec_castle_squares};
use crate::board::Board;
use crate::piece::Color;
use crate::position::Position;

verus! {

/// How the game stands for the side to move.
#[derive(Clone, Copy, Debug, PartialEq, Eq, Structural)]
pub enum GameState {
    /// The side to move has a legal move and is not in check.
    Playing,
    /// The side of that colour is to move, is in check, and has a legal move.
    Check(Color),
    /// The side of that colour is to move, is in check, and has no legal move.
    Checkmate(Color),
    /// The side to move is not in check and has no legal move.
    Stalemate,
}

impl Position {
    /// The action is a castling move, and the other side attacks the square
    /// on which the king stands or the square that it passes over.
    pub open spec fn castles_through_attack(self, a: Action) -> bool {
        a matches Action::Castle(m) && (spec_castle_squares(m.to) matches Some(c) && (
        self.square_is_attacked(
            c.king_from.0 as int,
            c.king_from.1 as int,
            self.turn.spec_opposite(),
        ) || self.square_is_attacked(
            c.rook_to.0 as int,
            c.rook_to.1 as int,
            self.turn.spec_opposite(),
        )))
    }

    /// After the action, the king of the side that made it is not attacked;
    /// and if the action is a castling move, the king was not attacked
    /// before it and does not pass over an attacked square.
    pub open spec fn leaves_king_safe(self, a: Action) -> bool {
        !self.apply(a).is_in_check(self.turn) && !self.castles_through_attack(a)
    }

    /// The pseudo-legal actions that leave the mover's king safe, in the
    /// order of the generator.
    pub open spec fn legal(self) -> Seq<Action> {
        self.pseudo_legal().filter(|a: Action| self.leaves_king_safe(a))
    }

    /// How the game stands for the side to move.
    pub open spec fn state(self) -> GameState {
        if self.legal().len() == 0 {
            if self.is_in_check(self.turn) {
                GameState::Checkmate(self.turn)
            } else {
                GameState::Stalemate
            }
        } else {
            if self.is_in_check(self.turn) {
                GameState::Check(self.turn)
            } else {
                GameState::Playing
            }
        }
    }
}

impl Board {
    /// Whether the action is a castling move that starts from or passes over
    /// a square that the other side attacks.
    pub fn castles_through_attack(&self, action: &Action) -> (r: bool)
        ensures
            r == self@.castles_through_attack(*action),
    {
        match action {
            Action::Castle(m) => match castle_squares(m.to) {
                Some(c) => {
                    let by = self.turn.opposite();
                    self.square_is_attacked(c.king_from, by) || self.square_is_attacked(
                        c.rook_to,
                        by,
                    )
                },
                None => false,
            },
            _ => false,
        }
    }

    /// Lists the actions of the side to move that do not leave its own king
    /// attacked, in the order of the generator; a castling move is listed
    /// only if the king neither starts from nor passes over an attacked
    /// square. Each candidate is made on this board, tested and taken back:
    /// the board is left as it was.
    pub fn get_legal_actions(&mut self) -> (r: Vec<Action>)
        requires
            old(self)@.consistent(),
        ensures
            r@ == old(self)@.legal(),
            forall|a: Action|
                r@.contains(a) <==> #[trigger] old(self)@.permits(a) && old(
                    self,
                )@.leaves_king_safe(a),
            r@.no_duplicates(),
            *final(self) == *old(self),
    {
        let candidates = self.get_possible_actions();
        let mover = self.turn;
        let ghost start = self@;
        let ghost safe = |a: Action| start.leaves_king_safe(a);
        let mut legal_actions: Vec<Action> = Vec::new();
        let mut i: usize = 0;
        proof {
            start.lemma_pseudo_legal_allowed();
            reveal(Seq::filter);
            assert(candidates@.take(0) =~= Seq::<Action>::empty());
        }
        while i < candidates.len()
            invariant
                i <= candidates.len(),
                *self == *old(self),
                start == old(self)@,
                start.consistent(),
                mover == start.turn,
                candidates@ == start.pseudo_legal(),
                start.allows_all(candidates@),
                safe == |a: Action| start.leaves_king_safe(a),
                legal_actions@ == candidates@.take(i as int).filter(safe),
            decreases candidates.len() - i,
        {
            let action = candidates[i];
            proof {
                start.lemma_allowed_can_be_made(action);
                start.lemma_undo_apply(action);
            }
            let unsafe_castle = self.castles_through_attack(&action);
            self.apply_action(&action);
            let is_check = self.is_in_check(mover) || unsafe_castle;
            self.undo_action(&action);
            proof {
                Board::lemma_view_injective(*self, *old(self));
                reveal(Seq::filter);
                assert(candidates@.take(i + 1).drop_last() =~= candidates@.take(i as int));
                assert(candidates@.take(i + 1).last() == action);
                assert(safe(action) == !is_check);
            }
            if !is_check {
                legal_actions.push(action);
            }
            i = i + 1;
        }
        assert(candidates@.take(i as int) =~= candidates@);
        proof {
            crate::laws::law_no_action_listed_twice(start);
            assert forall|a: Action|
                legal_actions@.contains(a) <==> #[trigger] start.permits(a)
                    && start.leaves_king_safe(a) by {
                crate::laws::law_legal_lists_the_safe(start, a);
            }
        }
        legal_actions
    }

    /// Whether the king of the side to move is attacked.
    pub fn is_check(&self) -> (r: bool)
        ensures
            r == self@.is_in_check(self@.turn),
    {
        self.is_in_check(self.turn)
    }

    /// Whether the side to move is in check and has no legal move.
    pub fn is_checkmate(&self) -> (r: bool)
        requires
            self@.consistent(),
        ensures
            r == (self@.state() == GameState::Checkmate(self@.turn)),
            r == (self@.is_in_check(self@.turn) && self@.legal().len() == 0),
    {
        let mut scratch = *self;
        self.is_check() && scratch.get_legal_actions().len() == 0
    }

    /// Whether the side to move is not in check and has no legal move.
    pub fn is_stalemate(&self) -> (r: bool)
        requires
            self@.consistent(),
        ensures
            r == (self@.state() == GameState::Stalemate),
            r == (!self@.is_in_check(self@.turn) && self@.legal().len() == 0),
    {
        let mut scratch = *self;
        !self.is_check() && scratch.get_legal_actions().len() == 0
    }

    /// How the game stands for the side to move.
    pub fn classify_state(&self) -> (r: GameState)
        requires
            self@.consistent(),
        ensures
            r == self@.state(),
    {
        let mut scratch = *self;
        let in_check = self.is_check();
        let stuck = scratch.get_legal_actions().len() == 0;
        if stuck {
            if in_check {
                GameState::Checkmate(self.turn)
            } else {
                GameState::Stalemate
            }
        } else {
            if in_check {
                GameState::Check(self.turn)
            } else {
                GameState::Playing
            }
        }
    }
}

} // verus!
