//! Verified core of an evolutionary chess trainer: piece values and board
//! material, the genome format of the neural brains and how it is mutated,
//! and the bookkeeping of a training generation.
pub mod game;
pub mod player;
pub mod training;
