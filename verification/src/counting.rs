//! A second minimal example game, without any symmetry: the board only
//! counts the moves played on it, and the game runs for as long as the
//! counter can grow. The odd moves `1` and `3` are always available, the
//! even move `2` never is.

use vstd::prelude::*;
use crate::board::Alternating;
use crate::board::Board;
use crate::board::Outcome;
use crate::board::Player;
use crate::symmetry::BoardSymmetry;
use crate::symmetry::UnitSymmetry;

verus! {

/// A board of the counting game. The whole state is how many moves have
/// been played.
#[derive(Debug, Copy, Clone, Eq, PartialEq, Hash)]
pub struct CountingBoard {
    /// How many moves have been played.
    pub count: u64,
}

impl CountingBoard {
    /// A fresh board on which no move has been played.
    pub fn new() -> (r: CountingBoard)
        ensures
            r.inv(),
            r.count == 0,
    {
        CountingBoard { count: 0 }
    }
}

impl BoardSymmetry for CountingBoard {
    type Symmetry = UnitSymmetry;

    open spec fn inv(&self) -> bool {
        true
    }

    open spec fn map_spec(&self, s: UnitSymmetry) -> Self {
        *self
    }

    open spec fn key_spec(&self) -> u64 {
        0
    }

    fn map(&self, s: UnitSymmetry) -> (r: Self) {
        *self
    }

    fn canonical_key(&self) -> (r: u64) {
        0
    }

    proof fn lemma_map_identity(&self) {
    }

    proof fn lemma_map_compose(&self, s: UnitSymmetry, t: UnitSymmetry) {
    }

    proof fn lemma_map_preserves_inv(&self, s: UnitSymmetry) {
    }

    proof fn lemma_key_determines(&self, s: UnitSymmetry, t: UnitSymmetry) {
    }
}

impl Board for CountingBoard {
    type Move = u8;

    open spec fn next_player_spec(&self) -> Player {
        if self.count % 2 == 0 {
            Player::A
        } else {
            Player::B
        }
    }

    open spec fn outcome_spec(&self) -> Option<Outcome> {
        if self.count == u64::MAX {
            Option::Some(Outcome::Draw)
        } else {
            Option::None
        }
    }

    open spec fn available_spec(&self, mv: u8) -> bool {
        mv == 1 || mv == 3
    }

    open spec fn all_moves_spec() -> Seq<u8> {
        seq![1u8, 2u8, 3u8]
    }

    open spec fn play_spec(&self, mv: u8) -> Self {
        CountingBoard { count: (self.count + 1) as u64 }
    }

    open spec fn can_lose_spec() -> bool {
        false
    }

    open spec fn map_move_spec(&self, s: UnitSymmetry, mv: u8) -> u8 {
        mv
    }

    proof fn lemma_available_in_all(&self, mv: u8) {
        assert(Self::all_moves_spec()[0] == 1);
        assert(Self::all_moves_spec()[2] == 3);
    }

    proof fn lemma_available_nonempty(&self) {
        assert(self.available_spec(1));
    }

    proof fn lemma_map_move_commutes(&self, s: UnitSymmetry, mv: u8) {
    }

    fn next_player(&self) -> (r: Player) {
        if self.count % 2 == 0 {
            Player::A
        } else {
            Player::B
        }
    }

    fn is_available_move(&self, mv: u8) -> (r: bool) {
        mv == 1 || mv == 3
    }

    fn play(&mut self, mv: u8) {
        self.count = self.count + 1;
    }

    fn outcome(&self) -> (r: Option<Outcome>) {
        if self.count == u64::MAX {
            Some(Outcome::Draw)
        } else {
            None
        }
    }

    fn can_lose_after_move() -> (r: bool) {
        false
    }

    fn duplicate(&self) -> (r: Self) {
        CountingBoard { count: self.count }
    }

    fn all_possible_moves() -> (r: Vec<u8>) {
        let r = vec![1u8, 2u8, 3u8];
        proof {
            assert(r@ =~= Self::all_moves_spec());
        }
        r
    }

    fn available_moves(&self) -> (r: Vec<u8>) {
        let r = vec![1u8, 3u8];
        proof {
            assert(r@[0] == 1u8);
            assert(r@[1] == 3u8);
            assert forall|mv: u8| self.available_spec(mv) implies r@.contains(mv) by {
                if mv == 1 {
                    assert(r@[0] == mv);
                } else {
                    assert(r@[1] == mv);
                }
            };
        }
        r
    }

    fn map_move(&self, s: UnitSymmetry, mv: u8) -> (r: u8) {
        mv
    }
}

impl Alternating for CountingBoard {
    proof fn lemma_alternating(&self, mv: u8) {
    }
}

} // verus!
