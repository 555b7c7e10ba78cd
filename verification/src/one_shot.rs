//! A minimal example game: two possible moves, and the first move played
//! ends the game. It exercises the full board contract, including a
//! nontrivial symmetry group that swaps the two moves.

use vstd::prelude::*;
use crate::board::Board;
use crate::board::Outcome;
use crate::board::Player;
use crate::symmetry::BoardSymmetry;
use crate::symmetry::Symmetry;

verus! {

/// The symmetry group of the one-shot game: the identity, and the element
/// that swaps the two moves.
#[derive(Debug, Copy, Clone, Eq, PartialEq, Hash, Structural)]
pub enum OneShotSymmetry {
    Identity,
    Swap,
}

impl Symmetry for OneShotSymmetry {
    open spec fn all_spec() -> Seq<OneShotSymmetry> {
        seq![OneShotSymmetry::Identity, OneShotSymmetry::Swap]
    }

    open spec fn identity_spec() -> OneShotSymmetry {
        OneShotSymmetry::Identity
    }

    open spec fn inverse_spec(self) -> OneShotSymmetry {
        self
    }

    open spec fn compose_spec(self, other: OneShotSymmetry) -> OneShotSymmetry {
        if self == other {
            OneShotSymmetry::Identity
        } else {
            OneShotSymmetry::Swap
        }
    }

    fn all() -> (r: Vec<OneShotSymmetry>) {
        let r = vec![OneShotSymmetry::Identity, OneShotSymmetry::Swap];
        proof {
            assert(r@ =~= Self::all_spec());
        }
        r
    }

    proof fn lemma_group_laws() {
        assert(Self::all_spec()[0] == OneShotSymmetry::Identity);
        assert(Self::all_spec()[1] == OneShotSymmetry::Swap);
        assert(Self::all_spec().contains(OneShotSymmetry::Identity));
        assert(Self::all_spec().contains(OneShotSymmetry::Swap));
        assert forall|s: OneShotSymmetry| Self::all_spec().contains(s) implies Self::all_spec()
            .contains(#[trigger] s.inverse_spec()) by {
            match s {
                OneShotSymmetry::Identity => {},
                OneShotSymmetry::Swap => {},
            }
        };
        assert forall|s: OneShotSymmetry, t: OneShotSymmetry|
            Self::all_spec().contains(s) && Self::all_spec().contains(
                t,
            ) implies Self::all_spec().contains(#[trigger] s.compose_spec(t)) by {
            match s.compose_spec(t) {
                OneShotSymmetry::Identity => {},
                OneShotSymmetry::Swap => {},
            }
        };
    }
}

/// A board of the one-shot game. The whole state is which move, if any, has
/// been played: move `1` wins the game for player `A`, move `2` wins it for
/// player `B`.
#[derive(Debug, Copy, Clone, Eq, PartialEq, Hash)]
pub struct OneShotBoard {
    /// The move that ended the game, or `None` while no move was played.
    pub played: Option<u8>,
}

/// The image of a move of the one-shot game under the swap: the two moves
/// trade places.
pub open spec fn swap_move_spec(mv: u8) -> u8 {
    if mv == 1 {
        2
    } else if mv == 2 {
        1
    } else {
        mv
    }
}

impl OneShotBoard {
    /// A fresh board on which no move has been played.
    pub fn new() -> (r: OneShotBoard)
        ensures
            r.inv(),
            r.played is None,
    {
        OneShotBoard { played: None }
    }
}

impl BoardSymmetry for OneShotBoard {
    type Symmetry = OneShotSymmetry;

    open spec fn inv(&self) -> bool {
        match self.played {
            Option::None => true,
            Option::Some(m) => m == 1 || m == 2,
        }
    }

    open spec fn map_spec(&self, s: OneShotSymmetry) -> Self {
        match s {
            OneShotSymmetry::Identity => *self,
            OneShotSymmetry::Swap => OneShotBoard {
                played: match self.played {
                    Option::None => Option::None,
                    Option::Some(m) => Option::Some(swap_move_spec(m)),
                },
            },
        }
    }

    open spec fn key_spec(&self) -> u64 {
        match self.played {
            Option::None => 0,
            Option::Some(m) => m as u64,
        }
    }

    fn map(&self, s: OneShotSymmetry) -> (r: Self) {
        match s {
            OneShotSymmetry::Identity => *self,
            OneShotSymmetry::Swap => OneShotBoard {
                played: match self.played {
                    Option::None => Option::None,
                    Option::Some(m) => Option::Some(
                        if m == 1 {
                            2
                        } else if m == 2 {
                            1
                        } else {
                            m
                        },
                    ),
                },
            },
        }
    }

    fn canonical_key(&self) -> (r: u64) {
        match self.played {
            Option::None => 0,
            Option::Some(m) => m as u64,
        }
    }

    proof fn lemma_map_identity(&self) {
    }

    proof fn lemma_map_compose(&self, s: OneShotSymmetry, t: OneShotSymmetry) {
    }

    proof fn lemma_map_preserves_inv(&self, s: OneShotSymmetry) {
    }

    proof fn lemma_key_determines(&self, s: OneShotSymmetry, t: OneShotSymmetry) {
    }
}

impl Board for OneShotBoard {
    type Move = u8;

    open spec fn next_player_spec(&self) -> Player {
        if self.played is None {
            Player::A
        } else {
            Player::B
        }
    }

    open spec fn outcome_spec(&self) -> Option<Outcome> {
        match self.played {
            Option::None => Option::None,
            Option::Some(m) => Option::Some(
                if m == 1 {
                    Outcome::WonBy(Player::A)
                } else {
                    Outcome::WonBy(Player::B)
                },
            ),
        }
    }

    open spec fn available_spec(&self, mv: u8) -> bool {
        self.played is None && (mv == 1 || mv == 2)
    }

    open spec fn all_moves_spec() -> Seq<u8> {
        seq![1u8, 2u8]
    }

    open spec fn play_spec(&self, mv: u8) -> Self {
        OneShotBoard { played: Option::Some(mv) }
    }

    open spec fn can_lose_spec() -> bool {
        true
    }

    open spec fn map_move_spec(&self, s: OneShotSymmetry, mv: u8) -> u8 {
        match s {
            OneShotSymmetry::Identity => mv,
            OneShotSymmetry::Swap => swap_move_spec(mv),
        }
    }

    proof fn lemma_available_in_all(&self, mv: u8) {
        assert(Self::all_moves_spec()[0] == 1);
        assert(Self::all_moves_spec()[1] == 2);
    }

    proof fn lemma_available_nonempty(&self) {
        assert(self.available_spec(1));
    }

    proof fn lemma_map_move_commutes(&self, s: OneShotSymmetry, mv: u8) {
    }

    fn next_player(&self) -> (r: Player) {
        if self.played.is_none() {
            Player::A
        } else {
            Player::B
        }
    }

    fn is_available_move(&self, mv: u8) -> (r: bool) {
        mv == 1 || mv == 2
    }

    fn play(&mut self, mv: u8) {
        self.played = Some(mv);
    }

    fn outcome(&self) -> (r: Option<Outcome>) {
        match self.played {
            None => None,
            Some(m) => Some(
                if m == 1 {
                    Outcome::WonBy(Player::A)
                } else {
                    Outcome::WonBy(Player::B)
                },
            ),
        }
    }

    fn can_lose_after_move() -> (r: bool) {
        true
    }

    fn duplicate(&self) -> (r: Self) {
        OneShotBoard { played: self.played }
    }

    fn all_possible_moves() -> (r: Vec<u8>) {
        let r = vec![1u8, 2u8];
        proof {
            assert(r@ =~= Self::all_moves_spec());
        }
        r
    }

    fn available_moves(&self) -> (r: Vec<u8>) {
        let r = vec![1u8, 2u8];
        proof {
            assert(r@[0] == 1u8);
            assert(r@[1] == 2u8);
            assert forall|mv: u8| self.available_spec(mv) implies r@.contains(mv) by {
                if mv == 1 {
                    assert(r@[0] == mv);
                } else {
                    assert(r@[1] == mv);
                }
            };
        }
        r
    }

    fn map_move(&self, s: OneShotSymmetry, mv: u8) -> (r: u8) {
        match s {
            OneShotSymmetry::Identity => mv,
            OneShotSymmetry::Swap => {
                if mv == 1 {
                    2
                } else if mv == 2 {
                    1
                } else {
                    mv
                }
            },
        }
    }
}

impl crate::board::Alternating for OneShotBoard {
    proof fn lemma_alternating(&self, mv: u8) {
    }
}

} // verus!
