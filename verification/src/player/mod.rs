//! The network brains and what a player derives from a board.
pub mod binary_util;
pub mod brain;
pub mod agent;
