//! Abstractions for two-player, perfect-information board games: a verified
//! board/move contract, symmetry canonicalization, a bruteforce move
//! enumerator, and a maximum-game-length decorator board.

pub mod board;
pub mod counting;
pub mod max_length;
pub mod one_shot;
pub mod symmetry;
