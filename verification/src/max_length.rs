//! A decorator board that forces a draw after a fixed number of moves.

use vstd::prelude::*;
use crate::board::Board;
use crate::board::Outcome;
use crate::board::Player;
use crate::symmetry::BoardSymmetry;
use crate::symmetry::Symmetry;

verus! {

/// A wrapper around an existing board that has the same behaviour, except
/// that the outcome is a draw once a fixed number of moves has been played.
///
/// The wrapper delegates every query to the inner board and keeps one piece
/// of state of its own, the count of moves played so far; it never replaces
/// the inner board's own transitions.
#[derive(Debug, Clone, Eq, PartialEq, Hash)]
pub struct MaxMovesBoard<B: Board> {
    /// The wrapped board.
    pub inner: B,
    /// How many moves have been played on this wrapper.
    pub moves: u64,
    /// The count of moves at which the game is declared drawn.
    pub max_moves: u64,
}

impl<B: Board> MaxMovesBoard<B> {
    /// Wrap `inner` so that the game is drawn once `max_moves` moves have
    /// been played.
    pub fn new(inner: B, max_moves: u64) -> (r: Self)
        requires
            inner.inv(),
        ensures
            r.inv(),
            r.inner == inner,
            r.moves == 0,
            r.max_moves == max_moves,
    {
        MaxMovesBoard { inner, moves: 0, max_moves }
    }

    /// The wrapped board.
    pub fn inner(&self) -> (r: &B)
        ensures
            r == &self.inner,
    {
        &self.inner
    }
}

impl<B: Board> BoardSymmetry for MaxMovesBoard<B> {
    type Symmetry = B::Symmetry;

    open spec fn inv(&self) -> bool {
        &&& self.inner.inv()
        &&& self.moves <= self.max_moves
    }

    open spec fn map_spec(&self, s: B::Symmetry) -> Self {
        MaxMovesBoard {
            inner: self.inner.map_spec(s),
            moves: self.moves,
            max_moves: self.max_moves,
        }
    }

    open spec fn key_spec(&self) -> u64 {
        self.inner.key_spec()
    }

    fn map(&self, s: B::Symmetry) -> (r: Self) {
        MaxMovesBoard { inner: self.inner.map(s), moves: self.moves, max_moves: self.max_moves }
    }

    fn canonical_key(&self) -> (r: u64) {
        self.inner.canonical_key()
    }

    proof fn lemma_map_identity(&self) {
        self.inner.lemma_map_identity();
    }

    proof fn lemma_map_compose(&self, s: B::Symmetry, t: B::Symmetry) {
        self.inner.lemma_map_compose(s, t);
    }

    proof fn lemma_map_preserves_inv(&self, s: B::Symmetry) {
        self.inner.lemma_map_preserves_inv(s);
    }

    proof fn lemma_key_determines(&self, s: B::Symmetry, t: B::Symmetry) {
        self.inner.lemma_key_determines(s, t);
    }
}

impl<B: Board> Board for MaxMovesBoard<B> {
    type Move = B::Move;

    open spec fn next_player_spec(&self) -> Player {
        self.inner.next_player_spec()
    }

    open spec fn outcome_spec(&self) -> Option<Outcome> {
        if self.moves == self.max_moves {
            Some(Outcome::Draw)
        } else {
            self.inner.outcome_spec()
        }
    }

    open spec fn available_spec(&self, mv: B::Move) -> bool {
        self.inner.available_spec(mv)
    }

    open spec fn all_moves_spec() -> Seq<B::Move> {
        B::all_moves_spec()
    }

    open spec fn play_spec(&self, mv: B::Move) -> Self {
        MaxMovesBoard {
            inner: self.inner.play_spec(mv),
            moves: (self.moves + 1) as u64,
            max_moves: self.max_moves,
        }
    }

    open spec fn can_lose_spec() -> bool {
        B::can_lose_spec()
    }

    open spec fn map_move_spec(&self, s: B::Symmetry, mv: B::Move) -> B::Move {
        self.inner.map_move_spec(s, mv)
    }

    proof fn lemma_available_in_all(&self, mv: B::Move) {
        self.inner.lemma_available_in_all(mv);
    }

    proof fn lemma_available_nonempty(&self) {
        self.inner.lemma_available_nonempty();
        let mv = choose|mv: B::Move| self.inner.available_spec(mv);
        assert(self.available_spec(mv));
    }

    proof fn lemma_map_move_commutes(&self, s: B::Symmetry, mv: B::Move) {
        self.inner.lemma_map_move_commutes(s, mv);
    }

    fn next_player(&self) -> (r: Player) {
        self.inner.next_player()
    }

    fn is_available_move(&self, mv: B::Move) -> (r: bool) {
        self.inner.is_available_move(mv)
    }

    fn play(&mut self, mv: B::Move) {
        self.inner.play(mv);
        self.moves = self.moves + 1;
    }

    fn outcome(&self) -> (r: Option<Outcome>) {
        if self.moves == self.max_moves {
            Some(Outcome::Draw)
        } else {
            self.inner.outcome()
        }
    }

    fn can_lose_after_move() -> (r: bool) {
        B::can_lose_after_move()
    }

    fn duplicate(&self) -> (r: Self) {
        MaxMovesBoard {
            inner: self.inner.duplicate(),
            moves: self.moves,
            max_moves: self.max_moves,
        }
    }

    fn all_possible_moves() -> (r: Vec<B::Move>) {
        B::all_possible_moves()
    }

    fn available_moves(&self) -> (r: Vec<B::Move>) {
        self.inner.available_moves()
    }

    fn map_move(&self, s: B::Symmetry, mv: B::Move) -> (r: B::Move) {
        self.inner.map_move(s, mv)
    }
}

/// Law: once as many moves as the cap have been played, the wrapper's
/// outcome is a draw, whatever the inner board itself would report; below
/// the cap, the inner board's outcome is reported as it stands.
pub proof fn lemma_cap_outcome<B: Board>(b: MaxMovesBoard<B>)
    ensures
        b.moves == b.max_moves ==> b.outcome_spec() == Some(Outcome::Draw),
        b.moves != b.max_moves ==> b.outcome_spec() == b.inner.outcome_spec(),
        forall|mv: B::Move| (#[trigger] b.play_spec(mv)).moves == ((b.moves + 1) as u64),
{
}

} // verus!
