//! Matches as the tournament hands them out and gets them back.

pub mod round_robin;
pub mod stats_wrapper;

use vstd::prelude::*;
use crate::engine::MoveRecord;
use crate::shogi::GameOutcome;

verus! {

/// Whether the tournament goes on after a match.
#[derive(Debug, Clone, Copy, PartialEq, Eq, Structural)]
pub enum TournamentState {
    Continue,
    Stop,
}

/// A match to play: its number, the engines playing Sente and Gote, and the
/// opening position in USI form (`startpos` or `sfen ...`).
#[derive(Debug, Clone)]
pub struct MatchTicket {
    pub id: u64,
    pub engines: [usize; 2],
    pub opening: String,
}

/// A played match: the ticket, when it started (milliseconds since the Unix
/// epoch), how it ended, and its moves.
#[derive(Debug, Clone)]
pub struct MatchResult {
    pub ticket: MatchTicket,
    pub game_start: i64,
    pub outcome: GameOutcome,
    pub moves: Vec<MoveRecord>,
}

} // verus!
