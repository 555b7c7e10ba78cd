use board_game::board::Board;
use board_game::board::AllMovesIterator;
use board_game::board::AvailableMovesIterator;
use board_game::board::BruteforceMoveIterator;
use board_game::board::Outcome;
use board_game::board::Player;
use board_game::board::bruteforce_available_moves;
use board_game::counting::CountingBoard;
use board_game::max_length::MaxMovesBoard;
use board_game::one_shot::OneShotBoard;
use board_game::one_shot::OneShotSymmetry;
use board_game::symmetry::BoardSymmetry;
use board_game::symmetry::Symmetry;
use board_game::symmetry::UnitSymmetry;
use board_game::symmetry::canonicalize;

#[test]
fn player_other_involution() {
    assert_eq!(Player::A.other(), Player::B);
    assert_eq!(Player::B.other(), Player::A);
    assert_eq!(Player::A.other().other(), Player::A);
    assert_eq!(Player::B.other().other(), Player::B);
}

#[test]
fn player_index_and_char() {
    assert_eq!(Player::A.index(), 0);
    assert_eq!(Player::B.index(), 1);
    assert_eq!(Player::A.to_char(), 'A');
    assert_eq!(Player::B.to_char(), 'B');
}

#[test]
fn player_sign() {
    assert_eq!(Player::A.sign(Player::A), 1);
    assert_eq!(Player::A.sign(Player::B), -1);
    assert_eq!(Player::B.sign(Player::B), 1);
    assert_eq!(Player::B.sign(Player::A), -1);
}

#[test]
fn one_shot_scenario() {
    let mut b = OneShotBoard::new();
    assert_eq!(OneShotBoard::all_possible_moves(), vec![1, 2]);
    assert_eq!(b.available_moves(), vec![1, 2]);
    assert!(!b.is_done());
    assert_eq!(b.outcome(), None);
    assert_eq!(b.next_player(), Player::A);
    b.play(1);
    assert!(b.is_done());
    assert_eq!(b.outcome(), Some(Outcome::WonBy(Player::A)));
    assert_eq!(b.next_player(), Player::B);
}

#[test]
fn one_shot_second_move_wins_for_b() {
    let mut b = OneShotBoard::new();
    b.play(2);
    assert!(b.is_done());
    assert_eq!(b.outcome(), Some(Outcome::WonBy(Player::B)));
}

#[test]
fn one_shot_available_moves_subset_of_all() {
    let b = OneShotBoard::new();
    let all = OneShotBoard::all_possible_moves();
    for mv in b.available_moves() {
        assert!(all.contains(&mv));
        assert!(b.is_available_move(mv));
    }
}

#[test]
fn available_moves_nonempty_while_ongoing() {
    assert!(!OneShotBoard::new().available_moves().is_empty());
    assert!(!CountingBoard::new().available_moves().is_empty());
}

#[test]
fn clone_and_play_leaves_original() {
    let b = OneShotBoard::new();
    let b2 = b.clone_and_play(1);
    assert!(!b.is_done());
    assert_eq!(b.available_moves(), vec![1, 2]);
    assert!(b2.is_done());
    assert_eq!(b2.outcome(), Some(Outcome::WonBy(Player::A)));
}

#[test]
fn bruteforce_iterator_yields_available_moves() {
    let b = OneShotBoard::new();
    let mut it = BruteforceMoveIterator::new(&b);
    assert_eq!(it.next(), Some(1));
    assert_eq!(it.next(), Some(2));
    assert_eq!(it.next(), None);
    assert_eq!(it.next(), None);
}

#[test]
fn bruteforce_equals_direct_enumeration() {
    let one_shot = OneShotBoard::new();
    assert_eq!(bruteforce_available_moves(&one_shot), one_shot.available_moves());
    let count = CountingBoard::new();
    assert_eq!(bruteforce_available_moves(&count), vec![1, 3]);
    assert_eq!(bruteforce_available_moves(&count), count.available_moves());
}

#[test]
fn bruteforce_skips_unavailable_middle_move() {
    let b = CountingBoard::new();
    let mut it = BruteforceMoveIterator::new(&b);
    assert_eq!(it.next(), Some(1));
    assert_eq!(it.next(), Some(3));
    assert_eq!(it.next(), None);
}

#[test]
fn max_moves_draw_at_cap() {
    let mut b = MaxMovesBoard::new(CountingBoard::new(), 3);
    for _ in 0..3 {
        assert!(!b.is_done());
        assert_eq!(b.outcome(), None);
        b.play(1);
    }
    assert!(b.is_done());
    assert_eq!(b.outcome(), Some(Outcome::Draw));
    assert_eq!(b.inner().outcome(), None);
}

#[test]
fn max_moves_cap_precedes_inner_outcome() {
    let mut b = MaxMovesBoard::new(OneShotBoard::new(), 1);
    assert!(!b.is_done());
    b.play(1);
    assert_eq!(b.inner().outcome(), Some(Outcome::WonBy(Player::A)));
    assert_eq!(b.outcome(), Some(Outcome::Draw));
}

#[test]
fn max_moves_reports_inner_outcome_below_cap() {
    let mut b = MaxMovesBoard::new(OneShotBoard::new(), 2);
    b.play(2);
    assert_eq!(b.outcome(), Some(Outcome::WonBy(Player::B)));
}

#[test]
fn max_moves_delegates_queries() {
    let b = MaxMovesBoard::new(CountingBoard::new(), 5);
    assert_eq!(b.next_player(), Player::A);
    assert_eq!(b.available_moves(), vec![1, 3]);
    assert!(b.is_available_move(3));
    assert!(!b.is_available_move(2));
    assert_eq!(b.inner(), &CountingBoard::new());
    assert!(!<MaxMovesBoard<CountingBoard>>::can_lose_after_move());
    assert!(<MaxMovesBoard<OneShotBoard>>::can_lose_after_move());
    assert!(OneShotBoard::can_lose_after_move());
}

#[test]
fn map_identity_and_roundtrip() {
    let b = OneShotBoard::new().clone_and_play(2);
    assert_eq!(b.map(OneShotSymmetry::Identity), b);
    assert_eq!(b.map(OneShotSymmetry::Swap).map(OneShotSymmetry::Swap), b);
    let fresh = OneShotBoard::new();
    assert_eq!(fresh.map(OneShotSymmetry::Swap), fresh);
}

#[test]
fn canonicalize_picks_smallest_key() {
    let won_by_b = OneShotBoard::new().clone_and_play(2);
    let won_by_a = OneShotBoard::new().clone_and_play(1);
    assert_eq!(canonicalize(&won_by_b), won_by_a);
    assert_eq!(canonicalize(&won_by_a), won_by_a);
    let fresh = OneShotBoard::new();
    assert_eq!(canonicalize(&fresh), fresh);
}

#[test]
fn canonicalize_is_symmetry_invariant() {
    let boards =
        vec![OneShotBoard::new(), OneShotBoard::new().clone_and_play(1), OneShotBoard::new().clone_and_play(2)];
    for b in boards {
        let mapped = b.map(OneShotSymmetry::Swap);
        assert_eq!(canonicalize(&mapped), canonicalize(&b));
        let canon = canonicalize(&b);
        assert_eq!(canonicalize(&canon), canon);
    }
}

#[test]
fn canonicalize_with_unit_symmetry_is_identity() {
    let b = CountingBoard::new();
    assert_eq!(canonicalize(&b), b);
    assert_eq!(UnitSymmetry::all(), vec![UnitSymmetry]);
}

#[test]
fn map_move_commutes_with_map() {
    let b = OneShotBoard::new();
    for mv in b.available_moves() {
        for s in OneShotSymmetry::all() {
            let played_then_mapped = b.clone_and_play(mv).map(s);
            let mapped_then_played = b.map(s).clone_and_play(b.map_move(s, mv));
            assert_eq!(played_then_mapped, mapped_then_played);
        }
    }
}

fn assert_alternating<B: board_game::board::AltBoard>(_b: &B) {}

#[test]
fn all_moves_iterator_yields_whole_move_space() {
    let mut it: AllMovesIterator<OneShotBoard> = AllMovesIterator::new();
    assert_eq!(it.next(), Some(1));
    assert_eq!(it.next(), Some(2));
    assert_eq!(it.next(), None);
    let mut by_default: AllMovesIterator<CountingBoard> = Default::default();
    assert_eq!(by_default.next(), Some(1));
    assert_eq!(by_default.next(), Some(2));
    assert_eq!(by_default.next(), Some(3));
    assert_eq!(by_default.next(), None);
}

#[test]
fn available_moves_iterator_yields_available_moves() {
    let b = CountingBoard::new();
    let mut it = AvailableMovesIterator::new(&b);
    assert_eq!(it.next(), Some(1));
    assert_eq!(it.next(), Some(3));
    assert_eq!(it.next(), None);
    assert_eq!(it.next(), None);
}

#[test]
fn next_player_alternates() {
    let mut b = CountingBoard::new();
    assert_eq!(b.next_player(), Player::A);
    b.play(1);
    assert_eq!(b.next_player(), Player::B);
    b.play(3);
    assert_eq!(b.next_player(), Player::A);
    assert_alternating(&CountingBoard::new());
    assert_alternating(&OneShotBoard::new());
}

#[test]
fn random_available_move_is_available() {
    let count = CountingBoard::new();
    for _ in 0..100 {
        let mv = count.random_available_move();
        assert!(count.is_available_move(mv));
    }
}

#[test]
fn random_available_move_is_near_uniform() {
    let b = OneShotBoard::new();
    let trials = 4000;
    let mut ones = 0u32;
    for _ in 0..trials {
        match b.random_available_move() {
            1 => ones += 1,
            2 => {},
            mv => panic!("unavailable move {}", mv),
        }
    }
    // Each of the two moves should come up in about half of the trials.
    assert!(ones > 1600, "move 1 drawn only {} times of {}", ones, trials);
    assert!(ones < 2400, "move 1 drawn {} times of {}", ones, trials);
}
