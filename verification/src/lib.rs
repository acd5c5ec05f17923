//! Shogitest: the decision logic of a shogi engine tournament runner.

pub mod text;

pub mod shogi;
pub mod engine;
pub mod cli;
pub mod args;
pub mod runner;
pub mod match_flow;
pub mod stats;
pub mod tc;
pub mod tournament;
pub mod pgn;
pub mod book;
