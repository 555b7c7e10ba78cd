//! The core board contract: players, outcomes, and the `Board` trait that
//! every concrete game implements.

use vstd::prelude::*;
use crate::symmetry::BoardSymmetry;
use crate::symmetry::Symmetry;

verus! {

/// One of the two players.
#[derive(Debug, Copy, Clone, Eq, PartialEq, Hash, Structural)]
pub enum Player {
    A,
    B,
}

/// The absolute outcome of a finished game.
#[derive(Debug, Copy, Clone, Eq, PartialEq, Hash, Structural)]
pub enum Outcome {
    WonBy(Player),
    Draw,
}

impl Player {
    /// The opponent of this player.
    pub open spec fn other_spec(self) -> Player {
        match self {
            Player::A => Player::B,
            Player::B => Player::A,
        }
    }

    /// Return the opponent of this player.
    pub fn other(self) -> (r: Player)
        ensures
            r == self.other_spec(),
    {
        match self {
            Player::A => Player::B,
            Player::B => Player::A,
        }
    }

    /// The index of this player: `0` for `A`, `1` for `B`.
    pub open spec fn index_spec(self) -> u8 {
        match self {
            Player::A => 0,
            Player::B => 1,
        }
    }

    /// Return the index of this player: `0` for `A`, `1` for `B`.
    pub fn index(self) -> (r: u8)
        ensures
            r == self.index_spec(),
    {
        match self {
            Player::A => 0,
            Player::B => 1,
        }
    }

    /// The character rendering of this player.
    pub open spec fn to_char_spec(self) -> char {
        match self {
            Player::A => 'A',
            Player::B => 'B',
        }
    }

    /// Return the character rendering of this player.
    pub fn to_char(self) -> (r: char)
        ensures
            r == self.to_char_spec(),
    {
        match self {
            Player::A => 'A',
            Player::B => 'B',
        }
    }

    /// Return `1` from the point of view `pov` of this player itself, and
    /// `-1` from the point of view of the opponent.
    pub fn sign(self, pov: Player) -> (r: i8)
        ensures
            self == pov ==> r == 1,
            self != pov ==> r == -1,
    {
        if self == pov {
            1
        } else {
            -1
        }
    }
}

/// Law: taking the opponent twice returns the original player, for both
/// players.
pub proof fn lemma_other_involution(p: Player)
    ensures
        p.other_spec().other_spec() == p,
{
}

/// Relies on rand::random_range: a uniformly distributed index drawn with
/// the thread-local generator from the half-open range of integers below
/// `n`; it panics only on an empty range.
#[verifier::external_body]
fn random_index_below(n: usize) -> (r: usize)
    requires
        0 < n,
    ensures
        r < n,
{
    rand::random_range(0..n)
}

/// The main trait of this crate: the state of a game.
///
/// Each game supplies its own constructors for start positions. A state is
/// immutable except through `play`; every other operation is a read-only
/// query. Operations that enumerate or play moves must only be invoked on a
/// state whose game is not finished.
pub trait Board: Sized + BoardSymmetry {
    /// The type used to represent moves on this board.
    type Move: Copy;

    /// The next player to make a move. If the board is done this is the
    /// player that did not play the last move, for consistency.
    spec fn next_player_spec(&self) -> Player;

    /// The outcome of this board; `None` while the game is not finished.
    spec fn outcome_spec(&self) -> Option<Outcome>;

    /// Whether the move `mv` is available on this board.
    spec fn available_spec(&self, mv: Self::Move) -> bool;

    /// Every move that could theoretically occur on any board of this game,
    /// in a fixed enumeration order.
    spec fn all_moves_spec() -> Seq<Self::Move>;

    /// The state that playing `mv` on this board produces.
    spec fn play_spec(&self, mv: Self::Move) -> Self;

    /// Whether the player who plays a move can lose the game by playing
    /// that move. This may be pessimistic: `true` is always sound.
    spec fn can_lose_spec() -> bool;

    /// The move `mv` mapped under the symmetry element `s`, consistently
    /// with how `map` transforms this board.
    spec fn map_move_spec(&self, s: Self::Symmetry, mv: Self::Move) -> Self::Move;

    /// Obligation: every available move is a theoretically possible move.
    proof fn lemma_available_in_all(&self, mv: Self::Move)
        requires
            self.inv(),
            self.outcome_spec() is None,
            self.available_spec(mv),
        ensures
            Self::all_moves_spec().contains(mv),
    ;

    /// Obligation: a board whose game is not finished has at least one
    /// available move.
    proof fn lemma_available_nonempty(&self)
        requires
            self.inv(),
            self.outcome_spec() is None,
        ensures
            exists|mv: Self::Move| self.available_spec(mv),
    ;

    /// Obligation: move mapping commutes with board mapping. Playing a move
    /// and mapping the result equals mapping the board and playing the
    /// mapped move.
    proof fn lemma_map_move_commutes(&self, s: Self::Symmetry, mv: Self::Move)
        requires
            self.inv(),
            self.outcome_spec() is None,
            self.available_spec(mv),
            <Self::Symmetry as Symmetry>::all_spec().contains(s),
        ensures
            self.play_spec(mv).map_spec(s) == self.map_spec(s).play_spec(
                self.map_move_spec(s, mv),
            ),
    ;

    /// Return the next player to make a move.
    fn next_player(&self) -> (r: Player)
        requires
            self.inv(),
        ensures
            r == self.next_player_spec(),
    ;

    /// Return whether the move `mv` is available on this board.
    fn is_available_move(&self, mv: Self::Move) -> (r: bool)
        requires
            self.inv(),
            self.outcome_spec() is None,
        ensures
            r == self.available_spec(mv),
    ;

    /// Play the move `mv`, modifying this board.
    fn play(&mut self, mv: Self::Move)
        requires
            old(self).inv(),
            old(self).outcome_spec() is None,
            old(self).available_spec(mv),
        ensures
            *final(self) == old(self).play_spec(mv),
            final(self).inv(),
    ;

    /// Return the outcome of this board; `None` while the game is not
    /// finished.
    fn outcome(&self) -> (r: Option<Outcome>)
        requires
            self.inv(),
        ensures
            r == self.outcome_spec(),
    ;

    /// Return whether the player who plays a move can lose the game by
    /// playing that move.
    fn can_lose_after_move() -> (r: bool)
        ensures
            r == Self::can_lose_spec(),
    ;

    /// Return a copy of this board.
    fn duplicate(&self) -> (r: Self)
        ensures
            r == *self,
    ;

    /// Return every move that could theoretically occur on any board of
    /// this game, in the fixed enumeration order.
    fn all_possible_moves() -> (r: Vec<Self::Move>)
        ensures
            r@ == Self::all_moves_spec(),
    ;

    /// Return the moves available on this board: exactly those moves `mv`
    /// with `available_spec(mv)`, and at least one.
    fn available_moves(&self) -> (r: Vec<Self::Move>)
        requires
            self.inv(),
            self.outcome_spec() is None,
        ensures
            r@.len() > 0,
            forall|i: int| 0 <= i < r@.len() ==> self.available_spec(#[trigger] r@[i]),
            forall|mv: Self::Move| self.available_spec(mv) ==> r@.contains(mv),
    ;

    /// Map the move `mv` under the symmetry element `s`.
    fn map_move(&self, s: Self::Symmetry, mv: Self::Move) -> (r: Self::Move)
        requires
            self.inv(),
            <Self::Symmetry as Symmetry>::all_spec().contains(s),
        ensures
            r == self.map_move_spec(s, mv),
    ;

    /// Return whether this game is done.
    fn is_done(&self) -> (r: bool)
        requires
            self.inv(),
        ensures
            r == (self.outcome_spec() is Some),
    {
        self.outcome().is_some()
    }

    /// Copy this board, play `mv` on the copy and return it.
    fn clone_and_play(&self, mv: Self::Move) -> (r: Self)
        requires
            self.inv(),
            self.outcome_spec() is None,
            self.available_spec(mv),
        ensures
            r == self.play_spec(mv),
            r.inv(),
    {
        let mut next = self.duplicate();
        next.play(mv);
        next
    }

    /// Pick a random move from the available moves of this board, each with
    /// equal probability.
    fn random_available_move(&self) -> (r: Self::Move)
        requires
            self.inv(),
            self.outcome_spec() is None,
        ensures
            self.available_spec(r),
    {
        let moves = self.available_moves();
        let index = random_index_below(moves.len());
        moves[index]
    }
}

/// A marker trait for boards which guarantee that the next player flips
/// after every move.
pub trait Alternating: Board {
    /// Obligation: playing any available move hands the turn to the
    /// opponent.
    proof fn lemma_alternating(&self, mv: Self::Move)
        requires
            self.inv(),
            self.outcome_spec() is None,
            self.available_spec(mv),
        ensures
            self.play_spec(mv).next_player_spec() == self.next_player_spec().other_spec(),
    ;
}

/// Boards that also alternate: implemented for every `Board` that is
/// `Alternating`.
pub trait AltBoard: Board + Alternating {

}

impl<B: Board + Alternating> AltBoard for B {

}

/// The predicate that holds of exactly the moves available on the board
/// `b`.
pub open spec fn avail_pred<B: Board>(b: B) -> spec_fn(B::Move) -> bool {
    (|mv: B::Move| b.available_spec(mv))
}

proof fn lemma_filter_empty<A>(pred: spec_fn(A) -> bool)
    ensures
        Seq::<A>::empty().filter(pred) == Seq::<A>::empty(),
{
    reveal(Seq::filter);
}

proof fn lemma_filter_singleton<A>(x: A, pred: spec_fn(A) -> bool)
    ensures
        pred(x) ==> seq![x].filter(pred) == seq![x],
        !pred(x) ==> seq![x].filter(pred) == Seq::<A>::empty(),
{
    reveal_with_fuel(Seq::filter, 2);
    assert(seq![x].drop_last() =~= Seq::<A>::empty());
    assert(seq![x].last() == x);
    if pred(x) {
        assert(seq![x].filter(pred) =~= seq![x]);
    }
}

/// A cursor over the full theoretical move space of a game, yielding the
/// moves of `all_possible_moves` in their fixed enumeration order.
pub struct AllMovesIterator<B: Board> {
    /// The full theoretical move space, in its fixed enumeration order.
    pub moves: Vec<B::Move>,
    /// The position of the cursor within `moves`.
    pub index: usize,
}

impl<B: Board> AllMovesIterator<B> {
    /// Well-formedness of the cursor.
    pub open spec fn wf(&self) -> bool {
        &&& self.moves@ == B::all_moves_spec()
        &&& self.index <= self.moves@.len()
    }

    /// The moves this cursor has still to yield, in order.
    pub open spec fn remaining_spec(&self) -> Seq<B::Move> {
        self.moves@.skip(self.index as int)
    }

    /// Start an enumeration of the full theoretical move space.
    pub fn new() -> (r: Self)
        ensures
            r.wf(),
            r.index == 0,
    {
        AllMovesIterator { moves: B::all_possible_moves(), index: 0 }
    }

    /// Yield the next theoretically possible move, or `None` once all have
    /// been yielded.
    pub fn next(&mut self) -> (r: Option<B::Move>)
        requires
            old(self).wf(),
        ensures
            final(self).wf(),
            final(self).moves == old(self).moves,
            (r matches Some(mv) ==> old(self).remaining_spec() == seq![mv]
                + final(self).remaining_spec() && final(self).index == old(self).index + 1),
            r is None ==> old(self).remaining_spec().len() == 0 && *final(self) == *old(self),
    {
        if self.index < self.moves.len() {
            let mv = self.moves[self.index];
            self.index = self.index + 1;
            proof {
                assert(old(self).remaining_spec() =~= seq![mv] + self.remaining_spec());
            }
            Some(mv)
        } else {
            None
        }
    }
}

impl<B: Board> Default for AllMovesIterator<B> {
    /// Start an enumeration of the full theoretical move space.
    fn default() -> (r: Self)
        ensures
            r.wf(),
            r.index == 0,
    {
        AllMovesIterator::new()
    }
}

/// A cursor over the available moves of one board, yielding the moves of
/// that board's `available_moves` in order.
pub struct AvailableMovesIterator<'a, B: Board> {
    /// The board whose available moves are enumerated.
    pub board: &'a B,
    /// The available moves of `board`, in the order the game enumerates
    /// them.
    pub moves: Vec<B::Move>,
    /// The position of the cursor within `moves`.
    pub index: usize,
}

impl<'a, B: Board> AvailableMovesIterator<'a, B> {
    /// Well-formedness of the cursor.
    pub open spec fn wf(&self) -> bool {
        &&& self.board.inv()
        &&& self.board.outcome_spec() is None
        &&& self.moves@.len() > 0
        &&& forall|i: int|
            0 <= i < self.moves@.len() ==> self.board.available_spec(#[trigger] self.moves@[i])
        &&& forall|mv: B::Move| self.board.available_spec(mv) ==> self.moves@.contains(mv)
        &&& self.index <= self.moves@.len()
    }

    /// Start an enumeration of the available moves of `board`.
    pub fn new(board: &'a B) -> (r: Self)
        requires
            board.inv(),
            board.outcome_spec() is None,
        ensures
            r.wf(),
            r.board == board,
            r.index == 0,
    {
        AvailableMovesIterator { board, moves: board.available_moves(), index: 0 }
    }

    /// Yield the next available move, or `None` once all have been yielded.
    pub fn next(&mut self) -> (r: Option<B::Move>)
        requires
            old(self).wf(),
        ensures
            final(self).wf(),
            final(self).board == old(self).board,
            final(self).moves == old(self).moves,
            (r matches Some(mv) ==> old(self).board.available_spec(mv) && final(self).index == old(
                self,
            ).index + 1 && old(self).moves@[old(self).index as int] == mv),
            r is None ==> old(self).index == old(self).moves@.len() && *final(self) == *old(self),
    {
        if self.index < self.moves.len() {
            let mv = self.moves[self.index];
            self.index = self.index + 1;
            Some(mv)
        } else {
            None
        }
    }
}

/// A lazy enumerator of the available moves of a board, built by bruteforce
/// from the theoretical move space: it scans every possible move and yields
/// those that are available. This may be a lot slower than a game's direct
/// enumeration of its available moves.
pub struct BruteforceMoveIterator<'a, B: Board> {
    /// The board whose available moves are enumerated.
    pub board: &'a B,
    /// The full theoretical move space, in its fixed enumeration order.
    pub all: Vec<B::Move>,
    /// The position of the scan within `all`.
    pub index: usize,
}

impl<'a, B: Board> BruteforceMoveIterator<'a, B> {
    /// Well-formedness of the enumerator.
    pub open spec fn wf(&self) -> bool {
        &&& self.board.inv()
        &&& self.board.outcome_spec() is None
        &&& self.all@ == B::all_moves_spec()
        &&& self.index <= self.all@.len()
    }

    /// The moves this enumerator has still to yield, in order.
    pub open spec fn remaining_spec(&self) -> Seq<B::Move> {
        self.all@.skip(self.index as int).filter(avail_pred(*self.board))
    }

    /// Start an enumeration of the available moves of `board`.
    pub fn new(board: &'a B) -> (r: Self)
        requires
            board.inv(),
            board.outcome_spec() is None,
        ensures
            r.wf(),
            r.board == board,
            r.index == 0,
    {
        BruteforceMoveIterator { board, all: B::all_possible_moves(), index: 0 }
    }

    /// Yield the next available move, or `None` once the scan of the
    /// theoretical move space is over.
    pub fn next(&mut self) -> (r: Option<B::Move>)
        requires
            old(self).wf(),
        ensures
            final(self).wf(),
            final(self).board == old(self).board,
            final(self).all == old(self).all,
            (r matches Some(mv) ==> old(self).remaining_spec() == seq![mv]
                + final(self).remaining_spec() && old(self).board.available_spec(mv)
                && final(self).index > old(self).index),
            r is None ==> old(self).remaining_spec().len() == 0 && final(self).remaining_spec().len()
                == 0,
    {
        while self.index < self.all.len()
            invariant
                self.wf(),
                self.board == old(self).board,
                self.all == old(self).all,
                self.remaining_spec() == old(self).remaining_spec(),
                self.index >= old(self).index,
            decreases self.all@.len() - self.index,
        {
            let mv = self.all[self.index];
            let ghost pred = avail_pred(*self.board);
            let ghost i = self.index as int;
            proof {
                assert(self.all@.skip(i) =~= seq![mv] + self.all@.skip(i + 1));
                Seq::filter_distributes_over_add(seq![mv], self.all@.skip(i + 1), pred);
                lemma_filter_singleton(mv, pred);
            }
            if self.board.is_available_move(mv) {
                self.index = self.index + 1;
                proof {
                    assert(seq![mv].filter(pred) + self.all@.skip(i + 1).filter(pred) == seq![mv]
                        + self.remaining_spec());
                }
                return Some(mv);
            }
            self.index = self.index + 1;
            proof {
                Seq::add_empty_left(seq![mv].filter(pred), self.all@.skip(i + 1).filter(pred));
            }
        }
        proof {
            assert(self.all@.skip(self.index as int) =~= Seq::<B::Move>::empty());
            lemma_filter_empty(avail_pred(*self.board));
        }
        None
    }

}

/// Enumerate the available moves of `board` by bruteforce: scan the full
/// theoretical move space and keep each move that is available.
pub fn bruteforce_available_moves<B: Board>(board: &B) -> (r: Vec<B::Move>)
    requires
        board.inv(),
        board.outcome_spec() is None,
    ensures
        r@ == B::all_moves_spec().filter(avail_pred(*board)),
{
    let mut it = BruteforceMoveIterator::new(board);
    proof {
        assert(it.all@.skip(0) =~= it.all@);
    }
    let ghost total = it.remaining_spec();
    let mut out: Vec<B::Move> = Vec::new();
    loop
        invariant
            it.wf(),
            it.board == board,
            out@ + it.remaining_spec() == total,
            total == B::all_moves_spec().filter(avail_pred(*board)),
        decreases it.all@.len() - it.index,
    {
        let ghost rem = it.remaining_spec();
        match it.next() {
            Some(mv) => {
                proof {
                    assert((out@ + seq![mv]) + it.remaining_spec() =~= out@ + (seq![mv]
                        + it.remaining_spec()));
                    assert(out@.push(mv) =~= out@ + seq![mv]);
                }
                out.push(mv);
            },
            None => {
                proof {
                    assert(out@ + rem =~= out@);
                }
                return out;
            },
        }
    }
}

/// Law: the bruteforce enumeration is equivalent to the direct one. The set
/// of moves that the bruteforce scan of the theoretical move space yields
/// for a board equals the set of moves available on that board, which is
/// exactly the set that `available_moves` returns.
pub proof fn lemma_bruteforce_equivalence<B: Board>(b: B)
    requires
        b.inv(),
        b.outcome_spec() is None,
    ensures
        B::all_moves_spec().filter(avail_pred(b)).to_set() =~= Set::new(
            (|mv: B::Move| b.available_spec(mv)),
        ),
{
    let all = B::all_moves_spec();
    let pred = avail_pred(b);
    let filtered = all.filter(pred);
    assert forall|mv: B::Move| filtered.to_set().contains(mv) implies b.available_spec(mv) by {
        let i = choose|i: int| 0 <= i < filtered.len() && filtered[i] == mv;
        Seq::lemma_filter_pred(all, pred, i);
    };
    assert forall|mv: B::Move| b.available_spec(mv) implies filtered.to_set().contains(mv) by {
        b.lemma_available_in_all(mv);
        let i = choose|i: int| 0 <= i < all.len() && all[i] == mv;
        Seq::lemma_filter_contains(all, pred, i);
    };
}

} // verus!
