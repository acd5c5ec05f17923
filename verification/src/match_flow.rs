//! One match between two engines as a state machine. The machine decides
//! what the runner does with the engines next (get them ready, search,
//! ponder, stop a ponder, restart one) and what each answer does to the game;
//! the runner carries out each action and reports how it went.

use vstd::prelude::*;
use crate::cli::{AdjudicationOptions, EngineOptions, PonderMode};
use crate::engine::{MoveRecord, Score};
use crate::runner::{
    go_command, ponder_go_command, position_command, ponder_hit_command, record_move, spec_after_move,
    spec_ponder_go, spec_ponder_hit, spec_stop_timeout, stop_timeout, PonderState,
};
use crate::shogi::{move_on_board, moves_text, side_after, spec_move_outcome, spec_usi, Color, Game, GameOutcome, Move};
use crate::tc::{sat_add, spec_bestmove_timeout, spec_step, spec_usi_time, to_usi_string, EngineTime, StepResult};
use crate::text::push_str;
use crate::tournament::{MatchResult, MatchTicket};

verus! {

/// One value for each side.
#[derive(Debug, Clone, Copy)]
pub struct BySide<T> {
    pub sente: T,
    pub gote: T,
}

impl<T> BySide<T> {
    /// The value of side `c`.
    pub open spec fn at(self, c: Color) -> T {
        match c {
            Color::Sente => self.sente,
            Color::Gote => self.gote,
        }
    }

    /// The values with that of side `c` replaced by `v`.
    pub open spec fn with(self, c: Color, v: T) -> BySide<T> {
        match c {
            Color::Sente => BySide { sente: v, gote: self.gote },
            Color::Gote => BySide { sente: self.sente, gote: v },
        }
    }
}

impl<T: Copy> BySide<T> {
    /// The value of side `c`.
    pub fn get(&self, c: Color) -> (r: T)
        ensures
            r == self.at(c),
    {
        match c {
            Color::Sente => self.sente,
            Color::Gote => self.gote,
        }
    }

    /// Replaces the value of side `c`.
    pub fn set(&mut self, c: Color, v: T)
        ensures
            *final(self) == old(self).with(c, v),
    {
        match c {
            Color::Sente => {
                self.sente = v;
            },
            Color::Gote => {
                self.gote = v;
            },
        }
    }
}

/// Where a match stands.
#[derive(Debug, Clone, Copy, PartialEq, Eq, Structural)]
pub enum Phase {
    /// Getting the engine of this side ready for the game.
    Preparing(Color),
    /// A missed ponder of the side to move is being stopped.
    Stopping,
    /// The side to move is searching.
    Searching,
    /// The side that just moved has been told to ponder.
    Pondering,
    /// At the end: the ponder of this side is being stopped.
    CleanupStop(Color),
    /// At the end: the engine of this side is being restarted.
    CleanupRestart(Color),
    /// At the end: the engine of the side that was to move is being restarted.
    RestartCurrent,
    /// The match is over.
    Over,
}

/// What the runner does next. Times are in milliseconds; `engine` is an
/// index into the tournament's engines.
#[derive(Debug, Clone, Copy, PartialEq, Eq, Structural)]
pub enum MatchAction {
    /// Restart the engine if `restart`, then `isready` and `usinewgame`.
    Prepare { engine: usize, restart: bool },
    /// Send the `ponderhit` of `commands`, then wait at most `timeout` (no
    /// limit when `None`) for the best move of `color`.
    PonderHit { engine: usize, color: Color, timeout: Option<u64> },
    /// Send the position and `go` of `commands`, then wait at most `timeout`
    /// for the best move of `color`.
    Search { engine: usize, color: Color, timeout: Option<u64> },
    /// Send `stop`, then wait at most `timeout` for the stopped search's best move.
    StopPonder { engine: usize, color: Color, timeout: u64 },
    /// Send the position and `go ponder` of `commands`; no answer is awaited.
    StartPonder { engine: usize },
    /// Restart the engine.
    Restart { engine: usize },
    /// The match is played; take its result.
    Finish,
    /// The match failed with the error of the action that failed as the
    /// given one (counting from zero) of this match's failed actions.
    Fail(usize),
}

/// How an action went.
#[derive(Debug, Clone)]
pub enum MatchEvent {
    /// The action that awaits no answer was carried out.
    Done,
    /// The awaited best move, and the milliseconds spent waiting for it
    /// (sending included).
    BestMove(MoveRecord, u64),
    /// No best move came in time.
    TimedOut,
    /// The engine closed its output.
    Disconnected,
    /// Writing, reading or restarting failed.
    Failed,
}

/// The state of a match in mathematical form.
#[verifier::ext_equal]
pub struct FlowView {
    /// The engines playing Sente and Gote.
    pub engines: BySide<usize>,
    pub modes: BySide<PonderMode>,
    pub restarts: BySide<bool>,
    pub adjudication: AdjudicationOptions,
    /// The game: its opening, the side to move there, and the moves played.
    pub opening: Seq<char>,
    pub start: Color,
    pub moves: Seq<Move>,
    /// The records of the moves played, and the outcome so far.
    pub records: Seq<MoveRecord>,
    pub outcome: GameOutcome,
    pub clocks: BySide<EngineTime>,
    /// The ponder search each side has under way, if any.
    pub ponder: BySide<Option<PonderState>>,
    pub last_move: Option<Move>,
    /// The side whose turn it is (during pondering: the side that moved).
    pub turn: Color,
    pub phase: Phase,
    /// Time spent on the current turn before the awaited answer.
    pub elapsed: u64,
    /// Whether the engine of `turn` is to be restarted at the end.
    pub restart_current: bool,
    /// How many actions of this match have failed.
    pub failures: usize,
    /// The failed search action that ends the match, if any.
    pub search_error: Option<usize>,
    /// The failed restart that cut the cleanup short, if any.
    pub cleanup_error: Option<usize>,
    /// The failed restart of the engine of `turn`, if any.
    pub restart_error: Option<usize>,
    /// The action the runner is carrying out.
    pub pending: MatchAction,
}

/// The clock arguments for side `c` to move.
pub open spec fn turn_clock(v: FlowView, c: Color) -> Seq<char> {
    spec_usi_time(c, v.clocks.sente, v.clocks.gote)
}

/// The time left on a Fischer or byoyomi clock.
pub open spec fn clock_remaining(t: EngineTime) -> Option<u64> {
    match t.time_control {
        crate::tc::TimeControl::Fischer { .. } | crate::tc::TimeControl::Byoyomi { .. } => Some(
            t.remaining,
        ),
        _ => None,
    }
}

/// The `position` command for the opening and the moves.
pub open spec fn position_text(opening: Seq<char>, moves: Seq<Move>) -> Seq<char> {
    "position "@ + (if moves.len() == 0 {
        opening
    } else {
        opening + " moves"@ + moves_text(moves)
    })
}

/// The turn of the side to move begins: a ponder it has under way is hit
/// when the opponent played the expected move, else stopped; without one it
/// searches.
pub open spec fn spec_begin_turn(v: FlowView) -> FlowView {
    let stm = side_after(v.start, v.moves.len());
    let engine = v.engines.at(stm);
    let timeout = spec_bestmove_timeout(v.clocks.at(stm));
    let base = FlowView { turn: stm, elapsed: 0, ..v };
    match v.ponder.at(stm) {
        Some(ps) => {
            let w = FlowView { ponder: v.ponder.with(stm, None), ..base };
            if v.last_move == Some(ps.expected_move) {
                FlowView {
                    phase: Phase::Searching,
                    pending: MatchAction::PonderHit { engine, color: stm, timeout },
                    ..w
                }
            } else {
                FlowView {
                    phase: Phase::Stopping,
                    pending: MatchAction::StopPonder {
                        engine,
                        color: stm,
                        timeout: spec_stop_timeout(timeout),
                    },
                    ..w
                }
            }
        },
        None => FlowView {
            phase: Phase::Searching,
            pending: MatchAction::Search { engine, color: stm, timeout },
            ..base
        },
    }
}

/// The side numbered `k` (Sente first).
pub open spec fn side_index(k: nat) -> Color {
    if k == 0 {
        Color::Sente
    } else {
        Color::Gote
    }
}

/// The number of the side after `c`.
pub open spec fn after_side(c: Color) -> nat {
    match c {
        Color::Sente => 1,
        Color::Gote => 2,
    }
}

/// The match's end is settled: an error to report (a failed restart in
/// the cleanup first, then a failed restart of the side to move, then the
/// failed search), or the result.
pub open spec fn spec_conclude(v: FlowView) -> FlowView {
    let action = match v.cleanup_error {
        Some(i) => MatchAction::Fail(i),
        None => match v.restart_error {
            Some(i) => MatchAction::Fail(i),
            None => match v.search_error {
                Some(i) => MatchAction::Fail(i),
                None => MatchAction::Finish,
            },
        },
    };
    FlowView { phase: Phase::Over, pending: action, ..v }
}

/// After the cleanup: restart the engine of the side to move if it must be,
/// else settle the end.
pub open spec fn spec_after_cleanup(v: FlowView) -> FlowView {
    if v.restart_current {
        FlowView {
            phase: Phase::RestartCurrent,
            pending: MatchAction::Restart { engine: v.engines.at(v.turn) },
            ..v
        }
    } else {
        spec_conclude(v)
    }
}

/// Stops the ponder searches still under way, from side number `k` on.
pub open spec fn spec_cleanup(v: FlowView, k: nat) -> FlowView
    decreases 2 - k,
{
    if k >= 2 {
        spec_after_cleanup(v)
    } else {
        let c = side_index(k);
        match v.ponder.at(c) {
            Some(_) => FlowView {
                ponder: v.ponder.with(c, None),
                phase: Phase::CleanupStop(c),
                pending: MatchAction::StopPonder { engine: v.engines.at(c), color: c, timeout: 5000 },
                ..v
            },
            None => spec_cleanup(v, k + 1),
        }
    }
}

/// The game has ended: stop the ponders under way, then restart the engine
/// of the side to move when `restart`.
pub open spec fn spec_finish_match(v: FlowView, restart: bool) -> FlowView {
    spec_cleanup(FlowView { restart_current: restart, ..v }, 0)
}

/// An action of the turn failed (the failure numbered `f`): stop the ponders
/// under way and restart the engine of the side to move, then report.
pub open spec fn spec_recover(v: FlowView, f: usize) -> FlowView {
    spec_cleanup(FlowView { search_error: Some(f), restart_current: true, ..v }, 0)
}

/// One more failed action.
pub open spec fn counted(v: FlowView) -> FlowView {
    FlowView { failures: (v.failures + 1) as usize, ..v }
}

/// The record kept of a best move of `stm`, after a turn of `total` ms that
/// left the clock `clock`.
pub open spec fn kept_record(rec: MoveRecord, stm: Color, total: u64, clock: EngineTime) -> MoveRecord {
    MoveRecord { stm: Some(stm), measured_time: total, time_left: clock_remaining(clock), ..rec }
}

/// The best move `rec` of the side to move came after `t` more ms: the clock
/// is charged with the turn's time, the move is played and recorded, the
/// adjudication rules apply; the game ends, or the mover starts to ponder on
/// the move it expects, or the next turn begins.
pub open spec fn spec_after_bestmove(v: FlowView, rec: MoveRecord, t: u64) -> FlowView {
    let stm = v.turn;
    let total = sat_add(v.elapsed, t);
    let stepped = spec_step(v.clocks.at(stm), total);
    let records = v.records.push(kept_record(rec, stm, total, stepped.0));
    let outcome = spec_after_move(
        spec_move_outcome(rec.m, stm),
        stepped.1 == StepResult::TimeElapsed,
        stm,
        v.adjudication,
        records,
    );
    let w = FlowView {
        clocks: v.clocks.with(stm, stepped.0),
        records,
        moves: v.moves.push(rec.m),
        outcome,
        last_move: Some(rec.m),
        elapsed: total,
        ..v
    };
    if outcome.spec_is_determined() {
        spec_finish_match(w, false)
    } else {
        match rec.ponder {
            Some(p) => if v.modes.at(stm) != PonderMode::Off {
                FlowView {
                    ponder: w.ponder.with(stm, Some(PonderState { expected_move: p })),
                    phase: Phase::Pondering,
                    pending: MatchAction::StartPonder { engine: v.engines.at(stm) },
                    ..w
                }
            } else {
                spec_begin_turn(w)
            },
            None => spec_begin_turn(w),
        }
    }
}

/// The side to move loses on time or by disconnection: the game is over and
/// its engine is restarted at the end.
pub open spec fn spec_unanswered(v: FlowView, e: MatchEvent) -> FlowView {
    let outcome = match e {
        MatchEvent::TimedOut => GameOutcome::LossByClock(v.turn),
        _ => GameOutcome::LossByDisconnection(v.turn),
    };
    spec_finish_match(FlowView { outcome, ..v }, true)
}

/// What an event does to the match.
pub open spec fn spec_next(v: FlowView, e: MatchEvent) -> FlowView {
    match v.phase {
        Phase::Preparing(c) => match e {
            MatchEvent::Done => if c == Color::Sente {
                FlowView {
                    phase: Phase::Preparing(Color::Gote),
                    pending: MatchAction::Prepare { engine: v.engines.gote, restart: v.restarts.gote },
                    ..v
                }
            } else {
                spec_begin_turn(v)
            },
            _ => FlowView { phase: Phase::Over, pending: MatchAction::Fail(v.failures), ..counted(v) },
        },
        Phase::Stopping => match e {
            MatchEvent::BestMove(_, t) => FlowView {
                elapsed: t,
                phase: Phase::Searching,
                pending: MatchAction::Search {
                    engine: v.engines.at(v.turn),
                    color: v.turn,
                    timeout: spec_bestmove_timeout(v.clocks.at(v.turn)),
                },
                ..v
            },
            MatchEvent::TimedOut | MatchEvent::Disconnected => spec_unanswered(v, e),
            _ => spec_recover(counted(v), v.failures),
        },
        Phase::Searching => match e {
            MatchEvent::BestMove(rec, t) => spec_after_bestmove(v, rec, t),
            MatchEvent::TimedOut | MatchEvent::Disconnected => spec_unanswered(v, e),
            _ => spec_recover(counted(v), v.failures),
        },
        Phase::Pondering => match e {
            MatchEvent::Done => spec_begin_turn(v),
            _ => spec_recover(FlowView { ponder: v.ponder.with(v.turn, None), ..counted(v) }, v.failures),
        },
        Phase::CleanupStop(c) => match e {
            MatchEvent::BestMove(_, _) => spec_cleanup(v, after_side(c)),
            MatchEvent::Failed => FlowView {
                phase: Phase::CleanupRestart(c),
                pending: MatchAction::Restart { engine: v.engines.at(c) },
                ..counted(v)
            },
            _ => FlowView {
                phase: Phase::CleanupRestart(c),
                pending: MatchAction::Restart { engine: v.engines.at(c) },
                ..v
            },
        },
        Phase::CleanupRestart(c) => match e {
            MatchEvent::Done => spec_cleanup(v, after_side(c)),
            _ => spec_after_cleanup(FlowView { cleanup_error: Some(v.failures), ..counted(v) }),
        },
        Phase::RestartCurrent => match e {
            MatchEvent::Done => spec_conclude(v),
            _ => spec_conclude(FlowView { restart_error: Some(v.failures), ..counted(v) }),
        },
        Phase::Over => v,
    }
}

/// A best move that the machine can take: a move on the board or none, a
/// ponder move on the board, and no score that draw adjudication cannot
/// take the absolute value of.
pub open spec fn record_acceptable(v: FlowView, rec: MoveRecord) -> bool {
    &&& move_on_board(rec.m) || rec.m is Null
    &&& rec.ponder matches Some(p) ==> move_on_board(p)
    &&& v.adjudication.draw is Some ==> rec.score != Score::Cp(i32::MIN)
}

/// The events that can answer the pending action.
pub open spec fn spec_accepts(v: FlowView, e: MatchEvent) -> bool {
    match v.phase {
        Phase::Preparing(_) | Phase::Pondering | Phase::CleanupRestart(_) | Phase::RestartCurrent => e is Done
            || e is Failed,
        Phase::Stopping | Phase::CleanupStop(_) => !(e is Done),
        Phase::Searching => match e {
            MatchEvent::Done => false,
            MatchEvent::BestMove(rec, _) => record_acceptable(v, rec),
            _ => true,
        },
        Phase::Over => false,
    }
}

/// The commands to send for the pending action, in order.
pub open spec fn spec_commands(v: FlowView) -> Seq<Seq<char>> {
    match v.pending {
        MatchAction::PonderHit { color, .. } => seq![
            spec_ponder_hit(v.modes.at(color), turn_clock(v, color)),
        ],
        MatchAction::Search { color, .. } => seq![
            position_text(v.opening, v.moves),
            "go "@ + turn_clock(v, color),
        ],
        MatchAction::StopPonder { .. } => seq!["stop"@],
        MatchAction::StartPonder { .. } => seq![
            position_text(v.opening, v.moves.push(v.ponder.at(v.turn).unwrap().expected_move)),
            spec_ponder_go(v.modes.at(v.turn), turn_clock(v, v.turn)).unwrap(),
        ],
        _ => Seq::empty(),
    }
}

/// The most failed actions a match can have reached in each phase.
pub open spec fn failure_bound(p: Phase) -> nat {
    match p {
        Phase::CleanupStop(Color::Sente) => 1,
        Phase::CleanupRestart(Color::Sente) | Phase::CleanupStop(Color::Gote) => 2,
        Phase::CleanupRestart(Color::Gote) => 3,
        Phase::RestartCurrent => 4,
        Phase::Over => 5,
        _ => 0,
    }
}

/// The invariant of a match.
pub open spec fn flow_wf(v: FlowView) -> bool {
    &&& forall|i: int| 0 <= i < v.moves.len() ==> move_on_board(#[trigger] v.moves[i]) || v.moves[i] is Null
    &&& v.ponder.sente matches Some(p) ==> move_on_board(p.expected_move)
    &&& v.ponder.gote matches Some(p) ==> move_on_board(p.expected_move)
    &&& v.adjudication.draw is Some ==> forall|i: int|
        0 <= i < v.records.len() ==> #[trigger] v.records[i].score != Score::Cp(i32::MIN)
    &&& v.adjudication.resign is Some ==> v.adjudication.resign->0.score != i32::MIN
    &&& v.failures <= failure_bound(v.phase)
    &&& v.search_error matches Some(i) ==> i < v.failures
    &&& v.cleanup_error matches Some(i) ==> i < v.failures
    &&& v.restart_error matches Some(i) ==> i < v.failures
    &&& v.pending matches MatchAction::Fail(i) ==> i < v.failures
    &&& (v.phase is Preparing || v.phase is Stopping || v.phase is Searching || v.phase is Pondering)
        ==> !v.outcome.spec_is_determined() && v.search_error is None && v.cleanup_error is None
        && v.restart_error is None
    &&& (v.phase is Stopping || v.phase is Searching) ==> v.turn == side_after(v.start, v.moves.len())
    &&& v.phase is Pondering ==> v.ponder.at(v.turn) is Some && v.modes.at(v.turn) != PonderMode::Off
    &&& v.pending is StartPonder ==> v.phase is Pondering
    &&& v.phase is Over ==> (v.pending is Finish || v.pending is Fail)
    &&& (v.phase is CleanupStop || v.phase is CleanupRestart || v.phase is RestartCurrent || (
    v.phase is Over && v.pending is Finish)) ==> (v.search_error is None
        ==> v.outcome.spec_is_determined())
    &&& (v.phase is CleanupStop || v.phase is CleanupRestart) ==> v.cleanup_error is None
        && v.restart_error is None
    &&& v.phase matches Phase::CleanupStop(c) ==> v.ponder.at(c) is None && (c == Color::Gote
        ==> v.ponder.sente is None)
    &&& v.phase matches Phase::CleanupRestart(c) ==> v.ponder.at(c) is None && (c == Color::Gote
        ==> v.ponder.sente is None)
    &&& (v.phase is RestartCurrent && v.cleanup_error is None) ==> v.ponder.sente is None
        && v.ponder.gote is None
    &&& v.pending is Finish ==> v.ponder.sente is None && v.ponder.gote is None
        && v.search_error is None && v.outcome.spec_is_determined() && v.phase is Over
}

/// The parts of the invariant that hold across the whole match.
pub open spec fn flow_base(v: FlowView) -> bool {
    &&& forall|i: int| 0 <= i < v.moves.len() ==> move_on_board(#[trigger] v.moves[i]) || v.moves[i] is Null
    &&& v.ponder.sente matches Some(p) ==> move_on_board(p.expected_move)
    &&& v.ponder.gote matches Some(p) ==> move_on_board(p.expected_move)
    &&& v.adjudication.draw is Some ==> forall|i: int|
        0 <= i < v.records.len() ==> #[trigger] v.records[i].score != Score::Cp(i32::MIN)
    &&& v.adjudication.resign is Some ==> v.adjudication.resign->0.score != i32::MIN
    &&& v.search_error matches Some(i) ==> i < v.failures
    &&& v.cleanup_error matches Some(i) ==> i < v.failures
    &&& v.restart_error matches Some(i) ==> i < v.failures
}

/// A turn can begin: nothing has failed and the game goes on.
pub open spec fn turn_ready(v: FlowView) -> bool {
    &&& flow_base(v)
    &&& v.failures == 0
    &&& v.search_error is None && v.cleanup_error is None && v.restart_error is None
    &&& !v.outcome.spec_is_determined()
}

proof fn lemma_begin_turn_wf(v: FlowView)
    requires
        turn_ready(v),
    ensures
        flow_wf(spec_begin_turn(v)),
{
}

proof fn lemma_conclude_wf(v: FlowView)
    requires
        flow_base(v),
        v.failures <= 5,
        v.search_error is None ==> v.outcome.spec_is_determined(),
        (v.cleanup_error is None && v.restart_error is None && v.search_error is None)
            ==> v.ponder.sente is None && v.ponder.gote is None,
    ensures
        flow_wf(spec_conclude(v)),
{
}

proof fn lemma_after_cleanup_wf(v: FlowView)
    requires
        flow_base(v),
        v.failures <= 4,
        v.search_error is None ==> v.outcome.spec_is_determined(),
        v.cleanup_error is None ==> v.ponder.sente is None && v.ponder.gote is None,
    ensures
        flow_wf(spec_after_cleanup(v)),
{
    if !v.restart_current {
        lemma_conclude_wf(v);
    }
}

proof fn lemma_cleanup_wf(v: FlowView, k: nat)
    requires
        flow_base(v),
        k <= 2,
        v.failures <= (if k == 0 {
            1nat
        } else if k == 1 {
            2nat
        } else {
            4nat
        }),
        v.cleanup_error is None,
        v.restart_error is None,
        v.search_error is None ==> v.outcome.spec_is_determined(),
        k >= 1 ==> v.ponder.sente is None,
        k >= 2 ==> v.ponder.gote is None,
    ensures
        flow_wf(spec_cleanup(v, k)),
    decreases 2 - k,
{
    if k >= 2 {
        lemma_after_cleanup_wf(v);
    } else {
        let c = side_index(k);
        if v.ponder.at(c) is None {
            lemma_cleanup_wf(v, k + 1);
        }
    }
}

/// Every event that the machine accepts keeps its invariant.
pub proof fn lemma_next_wf(v: FlowView, e: MatchEvent)
    requires
        flow_wf(v),
        spec_accepts(v, e),
    ensures
        flow_wf(spec_next(v, e)),
{
    match v.phase {
        Phase::Preparing(c) => {
            if e is Done && c == Color::Gote {
                lemma_begin_turn_wf(v);
            }
        },
        Phase::Stopping | Phase::Searching => {
            match e {
                MatchEvent::BestMove(rec, t) => {
                    if v.phase is Searching {
                        lemma_after_bestmove_wf(v, rec, t);
                    }
                },
                MatchEvent::TimedOut | MatchEvent::Disconnected => {
                    let outcome = match e {
                        MatchEvent::TimedOut => GameOutcome::LossByClock(v.turn),
                        _ => GameOutcome::LossByDisconnection(v.turn),
                    };
                    lemma_cleanup_wf(FlowView { outcome, restart_current: true, ..v }, 0);
                },
                _ => {
                    let w = counted(v);
                    lemma_cleanup_wf(FlowView { search_error: Some(v.failures), restart_current: true, ..w }, 0);
                },
            }
        },
        Phase::Pondering => {
            if e is Done {
                lemma_begin_turn_wf(v);
            } else {
                let w = FlowView { ponder: v.ponder.with(v.turn, None), ..counted(v) };
                lemma_cleanup_wf(FlowView { search_error: Some(v.failures), restart_current: true, ..w }, 0);
            }
        },
        Phase::CleanupStop(c) => {
            if e is BestMove {
                lemma_cleanup_wf(v, after_side(c));
            }
        },
        Phase::CleanupRestart(c) => {
            if e is Done {
                lemma_cleanup_wf(v, after_side(c));
            } else {
                lemma_after_cleanup_wf(FlowView { cleanup_error: Some(v.failures), ..counted(v) });
            }
        },
        Phase::RestartCurrent => {
            if e is Done {
                lemma_conclude_wf(v);
            } else {
                lemma_conclude_wf(FlowView { restart_error: Some(v.failures), ..counted(v) });
            }
        },
        Phase::Over => {},
    }
}

proof fn lemma_after_bestmove_wf(v: FlowView, rec: MoveRecord, t: u64)
    requires
        flow_wf(v),
        v.phase is Searching,
        record_acceptable(v, rec),
    ensures
        flow_wf(spec_after_bestmove(v, rec, t)),
{
    let stm = v.turn;
    let total = sat_add(v.elapsed, t);
    let stepped = spec_step(v.clocks.at(stm), total);
    let records = v.records.push(kept_record(rec, stm, total, stepped.0));
    let moves = v.moves.push(rec.m);
    assert forall|i: int| 0 <= i < moves.len() implies move_on_board(#[trigger] moves[i]) || moves[i] is Null by {
        if i < v.moves.len() {
            assert(moves[i] == v.moves[i]);
        }
    }
    if v.adjudication.draw is Some {
        assert forall|i: int| 0 <= i < records.len() implies #[trigger] records[i].score != Score::Cp(i32::MIN) by {
            if i < v.records.len() {
                assert(records[i] == v.records[i]);
            }
        }
    }
    let outcome = spec_after_move(
        spec_move_outcome(rec.m, stm),
        stepped.1 == StepResult::TimeElapsed,
        stm,
        v.adjudication,
        records,
    );
    let w = FlowView {
        clocks: v.clocks.with(stm, stepped.0),
        records,
        moves,
        outcome,
        last_move: Some(rec.m),
        elapsed: total,
        ..v
    };
    if outcome.spec_is_determined() {
        lemma_cleanup_wf(FlowView { restart_current: false, ..w }, 0);
    } else if rec.ponder is None || v.modes.at(stm) == PonderMode::Off {
        lemma_begin_turn_wf(w);
    }
}

} // verus!

verus! {

/// A match under way.
pub struct MatchFlow {
    engines: BySide<usize>,
    modes: BySide<PonderMode>,
    restarts: BySide<bool>,
    adjudication: AdjudicationOptions,
    game: Game,
    result: MatchResult,
    clocks: BySide<EngineTime>,
    ponder: BySide<Option<PonderState>>,
    last_move: Option<Move>,
    turn: Color,
    phase: Phase,
    elapsed: u64,
    restart_current: bool,
    failures: usize,
    search_error: Option<usize>,
    cleanup_error: Option<usize>,
    restart_error: Option<usize>,
    pending: MatchAction,
}

impl View for MatchFlow {
    type V = FlowView;

    closed spec fn view(&self) -> FlowView {
        FlowView {
            engines: self.engines,
            modes: self.modes,
            restarts: self.restarts,
            adjudication: self.adjudication,
            opening: self.game.opening@,
            start: self.game.start,
            moves: self.game.moves@,
            records: self.result.moves@,
            outcome: self.result.outcome,
            clocks: self.clocks,
            ponder: self.ponder,
            last_move: self.last_move,
            turn: self.turn,
            phase: self.phase,
            elapsed: self.elapsed,
            restart_current: self.restart_current,
            failures: self.failures,
            search_error: self.search_error,
            cleanup_error: self.cleanup_error,
            restart_error: self.restart_error,
            pending: self.pending,
        }
    }
}

/// A clock as it stands at the start of a game.
pub open spec fn fresh_clock(options: EngineOptions) -> EngineTime {
    EngineTime {
        time_control: options.time_control,
        margin: options.time_margin,
        remaining: match options.time_control {
            crate::tc::TimeControl::Fischer { base, .. } => base,
            crate::tc::TimeControl::Byoyomi { base, .. } => base,
            _ => 0,
        },
    }
}

/// The state of a match before anything is done: the engines of `ticket`
/// with their settings from `options`, the game at the ticket's opening, and
/// the engine of Sente to get ready first.
pub open spec fn initial_flow(
    ticket: MatchTicket,
    options: Seq<EngineOptions>,
    adjudication: AdjudicationOptions,
) -> FlowView {
    let s = options[ticket.engines[0] as int];
    let g = options[ticket.engines[1] as int];
    FlowView {
        engines: BySide { sente: ticket.engines[0], gote: ticket.engines[1] },
        modes: BySide { sente: s.ponder_mode, gote: g.ponder_mode },
        restarts: BySide { sente: s.restart, gote: g.restart },
        adjudication,
        opening: ticket.opening@,
        start: crate::shogi::spec_start_side(crate::text::ascii_words(ticket.opening@)),
        moves: Seq::empty(),
        records: Seq::empty(),
        outcome: GameOutcome::Undetermined,
        clocks: BySide { sente: fresh_clock(s), gote: fresh_clock(g) },
        ponder: BySide { sente: None, gote: None },
        last_move: None,
        turn: Color::Sente,
        phase: Phase::Preparing(Color::Sente),
        elapsed: 0,
        restart_current: false,
        failures: 0,
        search_error: None,
        cleanup_error: None,
        restart_error: None,
        pending: MatchAction::Prepare { engine: ticket.engines[0], restart: s.restart },
    }
}

/// Whether `m` is a move whose squares lie on the board.
fn on_board(m: Move) -> (r: bool)
    ensures
        r == move_on_board(m),
{
    match m {
        Move::Null => false,
        Move::Normal { from, to, .. } => 1 <= from.file && from.file <= 9 && 1 <= from.rank
            && from.rank <= 9 && 1 <= to.file && to.file <= 9 && 1 <= to.rank && to.rank <= 9,
        Move::Drop(_, sq) => 1 <= sq.file && sq.file <= 9 && 1 <= sq.rank && sq.rank <= 9,
        Move::Resign | Move::Win => true,
    }
}

impl MatchFlow {
    /// The invariant of the match.
    pub open spec fn wf(&self) -> bool {
        flow_wf(self@)
    }

    /// The ticket of the match.
    pub closed spec fn ticket(&self) -> MatchTicket {
        self.result.ticket
    }

    /// When the match started, in milliseconds since the Unix epoch.
    pub closed spec fn game_start(&self) -> i64 {
        self.result.game_start
    }

    /// Sets up the match of `ticket` between engines with the settings
    /// `options`, started at `game_start`; returns it with its first action.
    pub fn new(
        ticket: MatchTicket,
        options: &Vec<EngineOptions>,
        adjudication: AdjudicationOptions,
        game_start: i64,
    ) -> (r: (MatchFlow, MatchAction))
        requires
            ticket.engines[0] < options@.len(),
            ticket.engines[1] < options@.len(),
            adjudication.resign is Some ==> adjudication.resign->0.score != i32::MIN,
        ensures
            r.0.wf(),
            r.0@ == initial_flow(ticket, options@, adjudication),
            r.1 == r.0@.pending,
            r.0.ticket() == ticket,
            r.0.game_start() == game_start,
    {
        let se = ticket.engines[0];
        let ge = ticket.engines[1];
        let s = &options[se];
        let g = &options[ge];
        let game = Game::new(ticket.opening.as_str());
        let flow = MatchFlow {
            engines: BySide { sente: se, gote: ge },
            modes: BySide { sente: s.ponder_mode, gote: g.ponder_mode },
            restarts: BySide { sente: s.restart, gote: g.restart },
            adjudication,
            game,
            result: MatchResult {
                ticket,
                game_start,
                outcome: GameOutcome::Undetermined,
                moves: Vec::new(),
            },
            clocks: BySide {
                sente: EngineTime::new(s.time_control, s.time_margin),
                gote: EngineTime::new(g.time_control, g.time_margin),
            },
            ponder: BySide { sente: None, gote: None },
            last_move: None,
            turn: Color::Sente,
            phase: Phase::Preparing(Color::Sente),
            elapsed: 0,
            restart_current: false,
            failures: 0,
            search_error: None,
            cleanup_error: None,
            restart_error: None,
            pending: MatchAction::Prepare { engine: se, restart: s.restart },
        };
        assert(flow@.moves =~= Seq::<Move>::empty());
        assert(flow@.records =~= Seq::<MoveRecord>::empty());
        assert(flow@ =~= initial_flow(flow.result.ticket, options@, adjudication));
        let action = flow.pending;
        (flow, action)
    }

    fn begin_turn(&mut self)
        requires
            turn_ready(old(self)@),
        ensures
            final(self)@ == spec_begin_turn(old(self)@),
            final(self).result.ticket == old(self).result.ticket,
            final(self).result.game_start == old(self).result.game_start,
    {
        let stm = self.game.stm();
        let engine = self.engines.get(stm);
        let timeout = self.clocks.get(stm).bestmove_timeout();
        self.turn = stm;
        self.elapsed = 0;
        match self.ponder.get(stm) {
            Some(ps) => {
                self.ponder.set(stm, None);
                if self.last_move == Some(ps.expected_move) {
                    self.phase = Phase::Searching;
                    self.pending = MatchAction::PonderHit { engine, color: stm, timeout };
                } else {
                    self.phase = Phase::Stopping;
                    self.pending = MatchAction::StopPonder {
                        engine,
                        color: stm,
                        timeout: stop_timeout(timeout),
                    };
                }
            },
            None => {
                self.phase = Phase::Searching;
                self.pending = MatchAction::Search { engine, color: stm, timeout };
            },
        }
        assert(self@ =~= spec_begin_turn(old(self)@));
    }

    fn conclude(&mut self)
        ensures
            final(self)@ == spec_conclude(old(self)@),
            final(self).result.ticket == old(self).result.ticket,
            final(self).result.game_start == old(self).result.game_start,
    {
        let action = match self.cleanup_error {
            Some(i) => MatchAction::Fail(i),
            None => match self.restart_error {
                Some(i) => MatchAction::Fail(i),
                None => match self.search_error {
                    Some(i) => MatchAction::Fail(i),
                    None => MatchAction::Finish,
                },
            },
        };
        self.phase = Phase::Over;
        self.pending = action;
        assert(self@ =~= spec_conclude(old(self)@));
    }

    fn after_cleanup(&mut self)
        ensures
            final(self)@ == spec_after_cleanup(old(self)@),
            final(self).result.ticket == old(self).result.ticket,
            final(self).result.game_start == old(self).result.game_start,
    {
        if self.restart_current {
            self.phase = Phase::RestartCurrent;
            self.pending = MatchAction::Restart { engine: self.engines.get(self.turn) };
            assert(self@ =~= spec_after_cleanup(old(self)@));
        } else {
            self.conclude();
        }
    }

    /// Stops the ponder searches still under way, from side number `k` on.
    fn cleanup_active_ponders(&mut self, k: usize)
        requires
            k <= 2,
        ensures
            final(self)@ == spec_cleanup(old(self)@, k as nat),
            final(self).result.ticket == old(self).result.ticket,
            final(self).result.game_start == old(self).result.game_start,
        decreases 2 - k,
    {
        if k >= 2 {
            self.after_cleanup();
        } else {
            let c = if k == 0 {
                Color::Sente
            } else {
                Color::Gote
            };
            match self.ponder.get(c) {
                Some(_) => {
                    self.ponder.set(c, None);
                    self.phase = Phase::CleanupStop(c);
                    self.pending = MatchAction::StopPonder {
                        engine: self.engines.get(c),
                        color: c,
                        timeout: 5000,
                    };
                    assert(self@ =~= spec_cleanup(old(self)@, k as nat));
                },
                None => {
                    self.cleanup_active_ponders(k + 1);
                },
            }
        }
    }

    /// The game has ended: cleanup, then restart the engine to move if asked.
    fn finish_match(&mut self, restart: bool)
        ensures
            final(self)@ == spec_finish_match(old(self)@, restart),
            final(self).result.ticket == old(self).result.ticket,
            final(self).result.game_start == old(self).result.game_start,
    {
        self.restart_current = restart;
        assert(self@ =~= FlowView { restart_current: restart, ..old(self)@ });
        self.cleanup_active_ponders(0);
    }

    /// An action of the turn failed as the failure numbered `f`.
    fn recover_after_search_error(&mut self, f: usize)
        ensures
            final(self)@ == spec_recover(old(self)@, f),
            final(self).result.ticket == old(self).result.ticket,
            final(self).result.game_start == old(self).result.game_start,
    {
        self.search_error = Some(f);
        self.restart_current = true;
        assert(self@ =~= FlowView { search_error: Some(f), restart_current: true, ..old(self)@ });
        self.cleanup_active_ponders(0);
    }

    /// Counts a failed action; returns its number.
    fn count_failure(&mut self) -> (f: usize)
        requires
            old(self).failures < 5,
        ensures
            f == old(self).failures,
            final(self)@ == counted(old(self)@),
            final(self).result.ticket == old(self).result.ticket,
            final(self).result.game_start == old(self).result.game_start,
    {
        let f = self.failures;
        self.failures = f + 1;
        assert(self@ =~= counted(old(self)@));
        f
    }
}

impl MatchFlow {
    /// The best move `rec` of the side to move came after `t` more ms.
    fn after_bestmove(&mut self, rec: MoveRecord, t: u64)
        requires
            flow_wf(old(self)@),
            old(self)@.phase is Searching,
            record_acceptable(old(self)@, rec),
        ensures
            final(self)@ == spec_after_bestmove(old(self)@, rec, t),
            final(self).result.ticket == old(self).result.ticket,
            final(self).result.game_start == old(self).result.game_start,
    {
        let ghost v = self@;
        let stm = self.turn;
        let total = self.elapsed.saturating_add(t);
        let mut clock = self.clocks.get(stm);
        let step = clock.step(total);
        self.clocks.set(stm, clock);
        let mut record = rec;
        record.stm = Some(stm);
        record.measured_time = total;
        record.time_left = clock.remaining();
        assert(record == kept_record(rec, stm, total, clock));
        let m = record.m;
        let ponder_move = record.ponder;
        let move_outcome = self.game.do_move(m);
        self.last_move = Some(m);
        self.elapsed = total;
        let time_elapsed = match step {
            StepResult::TimeElapsed => true,
            StepResult::InTime => false,
        };
        record_move(&mut self.result, record, move_outcome, time_elapsed, stm, &self.adjudication);
        let ghost w = self@;
        assert(w =~= FlowView {
            clocks: v.clocks.with(stm, clock),
            records: v.records.push(kept_record(rec, stm, total, clock)),
            moves: v.moves.push(rec.m),
            outcome: w.outcome,
            last_move: Some(rec.m),
            elapsed: total,
            ..v
        });
        if self.result.outcome.is_determined() {
            self.finish_match(false);
        } else {
            proof {
                lemma_after_bestmove_wf(v, rec, t);
            }
            match ponder_move {
                Some(p) => {
                    if self.modes.get(stm) != PonderMode::Off {
                        self.ponder.set(stm, Some(PonderState { expected_move: p }));
                        self.phase = Phase::Pondering;
                        self.pending = MatchAction::StartPonder { engine: self.engines.get(stm) };
                        assert(self@ =~= spec_after_bestmove(v, rec, t));
                    } else {
                        self.begin_turn();
                    }
                },
                None => {
                    self.begin_turn();
                },
            }
        }
    }

    /// The side to move did not answer (`TimedOut` or `Disconnected`).
    fn unanswered(&mut self, e: &MatchEvent)
        ensures
            final(self)@ == spec_unanswered(old(self)@, *e),
            final(self).result.ticket == old(self).result.ticket,
            final(self).result.game_start == old(self).result.game_start,
    {
        let outcome = match e {
            MatchEvent::TimedOut => GameOutcome::LossByClock(self.turn),
            _ => GameOutcome::LossByDisconnection(self.turn),
        };
        self.result.outcome = outcome;
        assert(self@ =~= FlowView { outcome, ..old(self)@ });
        self.finish_match(true);
    }

    /// Takes how the pending action went; returns the next action.
    pub fn next(&mut self, event: MatchEvent) -> (r: MatchAction)
        requires
            old(self).wf(),
            spec_accepts(old(self)@, event),
        ensures
            final(self).wf(),
            final(self)@ == spec_next(old(self)@, event),
            r == final(self)@.pending,
            final(self).ticket() == old(self).ticket(),
            final(self).game_start() == old(self).game_start(),
    {
        proof {
            lemma_next_wf(self@, event);
        }
        let ghost v = self@;
        match self.phase {
            Phase::Preparing(c) => match event {
                MatchEvent::Done => {
                    if c == Color::Sente {
                        self.phase = Phase::Preparing(Color::Gote);
                        self.pending = MatchAction::Prepare {
                            engine: self.engines.gote,
                            restart: self.restarts.gote,
                        };
                        assert(self@ =~= spec_next(v, event));
                    } else {
                        self.begin_turn();
                    }
                },
                _ => {
                    let f = self.count_failure();
                    self.phase = Phase::Over;
                    self.pending = MatchAction::Fail(f);
                    assert(self@ =~= spec_next(v, event));
                },
            },
            Phase::Stopping => match event {
                MatchEvent::BestMove(_, t) => {
                    self.elapsed = t;
                    self.phase = Phase::Searching;
                    self.pending = MatchAction::Search {
                        engine: self.engines.get(self.turn),
                        color: self.turn,
                        timeout: self.clocks.get(self.turn).bestmove_timeout(),
                    };
                    assert(self@ =~= spec_next(v, event));
                },
                MatchEvent::TimedOut | MatchEvent::Disconnected => {
                    self.unanswered(&event);
                },
                _ => {
                    let f = self.count_failure();
                    self.recover_after_search_error(f);
                },
            },
            Phase::Searching => match event {
                MatchEvent::BestMove(rec, t) => {
                    self.after_bestmove(rec, t);
                },
                MatchEvent::TimedOut | MatchEvent::Disconnected => {
                    self.unanswered(&event);
                },
                _ => {
                    let f = self.count_failure();
                    self.recover_after_search_error(f);
                },
            },
            Phase::Pondering => match event {
                MatchEvent::Done => {
                    self.begin_turn();
                },
                _ => {
                    let f = self.count_failure();
                    self.ponder.set(self.turn, None);
                    assert(self@ =~= FlowView { ponder: v.ponder.with(v.turn, None), ..counted(v) });
                    self.recover_after_search_error(f);
                },
            },
            Phase::CleanupStop(c) => match event {
                MatchEvent::BestMove(_, _) => {
                    let k: usize = match c {
                        Color::Sente => 1,
                        Color::Gote => 2,
                    };
                    self.cleanup_active_ponders(k);
                },
                _ => {
                    if let MatchEvent::Failed = event {
                        self.count_failure();
                    }
                    self.phase = Phase::CleanupRestart(c);
                    self.pending = MatchAction::Restart { engine: self.engines.get(c) };
                    assert(self@ =~= spec_next(v, event));
                },
            },
            Phase::CleanupRestart(c) => match event {
                MatchEvent::Done => {
                    let k: usize = match c {
                        Color::Sente => 1,
                        Color::Gote => 2,
                    };
                    self.cleanup_active_ponders(k);
                },
                _ => {
                    let f = self.count_failure();
                    self.cleanup_error = Some(f);
                    assert(self@ =~= FlowView { cleanup_error: Some(v.failures), ..counted(v) });
                    self.after_cleanup();
                },
            },
            Phase::RestartCurrent => match event {
                MatchEvent::Done => {
                    self.conclude();
                },
                _ => {
                    let f = self.count_failure();
                    self.restart_error = Some(f);
                    assert(self@ =~= FlowView { restart_error: Some(v.failures), ..counted(v) });
                    self.conclude();
                },
            },
            Phase::Over => {},
        }
        self.pending
    }
}

/// The views of a list of strings.
pub open spec fn string_views(v: Seq<String>) -> Seq<Seq<char>> {
    Seq::new(v.len(), |i: int| v[i]@)
}

impl MatchFlow {
    /// The `position` command for the game so far.
    fn position(&self) -> (r: String)
        requires
            flow_wf(self@),
        ensures
            r@ == position_text(self@.opening, self@.moves),
    {
        position_command(&self.game)
    }

    /// The `position` command for the game once `p` is played.
    fn position_after(&self, p: Move) -> (r: String)
        requires
            flow_wf(self@),
            move_on_board(p),
        ensures
            r@ == position_text(self@.opening, self@.moves.push(p)),
    {
        let mut s = String::new();
        push_str(&mut s, "position ");
        let u = self.game.usi_string();
        push_str(&mut s, u.as_str());
        if self.game.moves.len() == 0 {
            push_str(&mut s, " moves");
        }
        push_str(&mut s, " ");
        let t = p.to_usi();
        push_str(&mut s, t.as_str());
        let ghost moves = self@.moves;
        assert(moves.push(p).drop_last() =~= moves);
        assert(moves_text(moves.push(p)) == moves_text(moves) + " "@ + spec_usi(p));
        proof {
            if moves.len() == 0 {
                assert(moves_text(moves) =~= Seq::<char>::empty());
            }
        }
        assert(s@ =~= position_text(self@.opening, moves.push(p)));
        s
    }

    /// The commands to send for the pending action, in order.
    pub fn commands(&self) -> (r: Vec<String>)
        requires
            self.wf(),
        ensures
            string_views(r@) == spec_commands(self@),
    {
        let mut out: Vec<String> = Vec::new();
        match self.pending {
            MatchAction::PonderHit { color, .. } => {
                let args = to_usi_string(color, &self.clocks.sente, &self.clocks.gote);
                out.push(ponder_hit_command(self.modes.get(color), args.as_str()));
            },
            MatchAction::Search { color, .. } => {
                let args = to_usi_string(color, &self.clocks.sente, &self.clocks.gote);
                out.push(self.position());
                out.push(go_command(args.as_str()));
            },
            MatchAction::StopPonder { .. } => {
                proof {
                    reveal_strlit("stop");
                }
                out.push("stop".to_owned());
            },
            MatchAction::StartPonder { .. } => {
                let expected = self.ponder.get(self.turn).unwrap().expected_move;
                let args = to_usi_string(self.turn, &self.clocks.sente, &self.clocks.gote);
                out.push(self.position_after(expected));
                out.push(ponder_go_command(self.modes.get(self.turn), args.as_str()).unwrap());
            },
            _ => {},
        }
        assert(string_views(out@) =~= spec_commands(self@));
        out
    }

    /// Whether `e` can answer the pending action.
    pub fn accepts(&self, e: &MatchEvent) -> (r: bool)
        ensures
            r == spec_accepts(self@, *e),
    {
        match self.phase {
            Phase::Preparing(_) | Phase::Pondering | Phase::CleanupRestart(_) | Phase::RestartCurrent => {
                matches!(e, MatchEvent::Done | MatchEvent::Failed)
            },
            Phase::Stopping | Phase::CleanupStop(_) => !matches!(e, MatchEvent::Done),
            Phase::Searching => match e {
                MatchEvent::Done => false,
                MatchEvent::BestMove(rec, _) => {
                    let ponder_ok = match rec.ponder {
                        Some(p) => on_board(p),
                        None => true,
                    };
                    let score_ok = match self.adjudication.draw {
                        Some(_) => match rec.score {
                            Score::Cp(cp) => cp != i32::MIN,
                            _ => true,
                        },
                        None => true,
                    };
                    (on_board(rec.m) || matches!(rec.m, Move::Null)) && ponder_ok && score_ok
                },
                _ => true,
            },
            Phase::Over => false,
        }
    }

    /// The action the runner is carrying out.
    pub fn pending(&self) -> (r: MatchAction)
        ensures
            r == self@.pending,
    {
        self.pending
    }

    /// The result of the match.
    pub fn into_result(self) -> (r: MatchResult)
        ensures
            r.ticket == self.ticket(),
            r.game_start == self.game_start(),
            r.outcome == self@.outcome,
            r.moves@ == self@.records,
    {
        self.result
    }
}

} // verus!

verus! {

/// The end of a match changes nothing of the game, its records or clocks.
proof fn lemma_cleanup_keeps(v: FlowView, k: nat)
    ensures
        spec_cleanup(v, k).records == v.records,
        spec_cleanup(v, k).moves == v.moves,
        spec_cleanup(v, k).clocks == v.clocks,
        spec_cleanup(v, k).outcome == v.outcome,
    decreases 2 - k,
{
    if k < 2 && v.ponder.at(side_index(k)) is None {
        lemma_cleanup_keeps(v, k + 1);
    }
}

/// When the opponent played the move a side was pondering on, its turn
/// starts with `ponderhit`: bare in standard pondering, with the clock in
/// early pondering; the ponder search goes on as the search of the turn.
pub proof fn lemma_ponder_hit(v: FlowView)
    requires
        turn_ready(v),
        v.ponder.at(side_after(v.start, v.moves.len())) matches Some(ps) && v.last_move == Some(
            ps.expected_move,
        ),
    ensures
        ({
            let stm = side_after(v.start, v.moves.len());
            let a = spec_begin_turn(v);
            &&& a.pending == MatchAction::PonderHit {
                engine: v.engines.at(stm),
                color: stm,
                timeout: spec_bestmove_timeout(v.clocks.at(stm)),
            }
            &&& spec_commands(a) == seq![spec_ponder_hit(v.modes.at(stm), turn_clock(v, stm))]
            &&& a.ponder.at(stm) is None
        }),
{
}

/// When the opponent played another move than the one a side was pondering
/// on, its turn starts with `stop`; the stopped search's best move is
/// consumed and not played, and only then is the actual position searched.
pub proof fn lemma_ponder_miss_stops_first(v: FlowView, stopped: MoveRecord, t: u64)
    requires
        turn_ready(v),
        v.ponder.at(side_after(v.start, v.moves.len())) matches Some(ps) && v.last_move != Some(
            ps.expected_move,
        ),
    ensures
        ({
            let stm = side_after(v.start, v.moves.len());
            let timeout = spec_bestmove_timeout(v.clocks.at(stm));
            let a = spec_begin_turn(v);
            let b = spec_next(a, MatchEvent::BestMove(stopped, t));
            &&& a.pending == MatchAction::StopPonder {
                engine: v.engines.at(stm),
                color: stm,
                timeout: spec_stop_timeout(timeout),
            }
            &&& spec_commands(a) == seq!["stop"@]
            &&& b.pending == MatchAction::Search { engine: v.engines.at(stm), color: stm, timeout }
            &&& spec_commands(b) == seq![position_text(v.opening, v.moves), "go "@ + turn_clock(v, stm)]
            &&& b.moves == v.moves
            &&& b.records == v.records
        }),
{
}

/// The time charged to a side for a move runs from the start of its turn
/// (the `ponderhit`, the `stop` of a missed ponder, or the search) to its
/// best move: time spent pondering before the turn is not charged, and the
/// wait for a stopped ponder is.
pub proof fn lemma_turn_time(v: FlowView, stopped: MoveRecord, t1: u64, rec: MoveRecord, t2: u64)
    requires
        turn_ready(v),
        move_on_board(rec.m) || rec.m is Null,
        rec.ponder matches Some(p) ==> move_on_board(p),
        v.adjudication.draw is Some ==> rec.score != Score::Cp(i32::MIN),
    ensures
        ({
            let stm = side_after(v.start, v.moves.len());
            let a = spec_begin_turn(v);
            let total = if a.phase is Stopping {
                sat_add(t1, t2)
            } else {
                t2
            };
            let b = if a.phase is Stopping {
                spec_next(a, MatchEvent::BestMove(stopped, t1))
            } else {
                a
            };
            let c = spec_next(b, MatchEvent::BestMove(rec, t2));
            let clock = spec_step(v.clocks.at(stm), total).0;
            &&& b.phase is Searching
            &&& c.records == v.records.push(kept_record(rec, stm, total, clock))
            &&& c.records.last().measured_time == total
            &&& c.clocks == v.clocks.with(stm, clock)
        }),
{
    let stm = side_after(v.start, v.moves.len());
    let a = spec_begin_turn(v);
    let b = if a.phase is Stopping {
        spec_next(a, MatchEvent::BestMove(stopped, t1))
    } else {
        a
    };
    let total = if a.phase is Stopping {
        sat_add(t1, t2)
    } else {
        t2
    };
    assert(sat_add(b.elapsed, t2) == total);
    let clock = spec_step(v.clocks.at(stm), total).0;
    let records = v.records.push(kept_record(rec, stm, total, clock));
    let outcome = spec_after_move(
        spec_move_outcome(rec.m, stm),
        spec_step(v.clocks.at(stm), total).1 == StepResult::TimeElapsed,
        stm,
        b.adjudication,
        records,
    );
    let w = FlowView {
        clocks: b.clocks.with(stm, clock),
        records,
        moves: b.moves.push(rec.m),
        outcome,
        last_move: Some(rec.m),
        elapsed: total,
        ..b
    };
    lemma_cleanup_keeps(FlowView { restart_current: false, ..w }, 0);
}

/// A side that does not answer in time loses on time, one whose engine
/// closes its output loses by disconnection; either way its engine is
/// restarted before the match ends.
pub proof fn lemma_unanswered_loses(v: FlowView, e: MatchEvent)
    requires
        flow_wf(v),
        v.phase is Stopping || v.phase is Searching,
        e is TimedOut || e is Disconnected,
    ensures
        spec_next(v, e).outcome == (if e is TimedOut {
            GameOutcome::LossByClock(v.turn)
        } else {
            GameOutcome::LossByDisconnection(v.turn)
        }),
        spec_next(v, e).restart_current,
        spec_next(v, e).turn == v.turn,
{
    let outcome = if e is TimedOut {
        GameOutcome::LossByClock(v.turn)
    } else {
        GameOutcome::LossByDisconnection(v.turn)
    };
    lemma_cleanup_keeps(FlowView { outcome, restart_current: true, ..v }, 0);
    lemma_cleanup_keeps_turn(FlowView { outcome, restart_current: true, ..v }, 0);
}

proof fn lemma_cleanup_keeps_turn(v: FlowView, k: nat)
    ensures
        spec_cleanup(v, k).turn == v.turn,
        spec_cleanup(v, k).restart_current == v.restart_current,
    decreases 2 - k,
{
    if k < 2 && v.ponder.at(side_index(k)) is None {
        lemma_cleanup_keeps_turn(v, k + 1);
    }
}

/// A match that finishes has an outcome, and leaves no engine pondering:
/// every ponder search that was started has been hit or stopped.
pub proof fn lemma_finish_leaves_no_ponder(v: FlowView, e: MatchEvent)
    requires
        flow_wf(v),
        spec_accepts(v, e),
        spec_next(v, e).pending is Finish,
    ensures
        spec_next(v, e).ponder.sente is None,
        spec_next(v, e).ponder.gote is None,
        spec_next(v, e).outcome.spec_is_determined(),
{
    lemma_next_wf(v, e);
}

/// The action answers a ponder search of `engine`: a `ponderhit`, a `stop`,
/// or a restart of the engine.
pub open spec fn closes_ponder(a: MatchAction, engine: usize) -> bool {
    match a {
        MatchAction::PonderHit { engine: x, .. } => x == engine,
        MatchAction::StopPonder { engine: x, .. } => x == engine,
        MatchAction::Restart { engine: x } => x == engine,
        _ => false,
    }
}

/// A ponder search of `engine` is under way.
pub open spec fn ponder_owed(v: FlowView, engine: usize) -> bool {
    ||| (v.ponder.sente is Some && v.engines.sente == engine)
    ||| (v.ponder.gote is Some && v.engines.gote == engine)
}

/// The end of the match has still to restart `engine`, the engine of the
/// side that was to move.
pub open spec fn restart_owed(v: FlowView, engine: usize) -> bool {
    &&& v.restart_current
    &&& v.engines.at(v.turn) == engine
    &&& (v.phase is CleanupStop || v.phase is CleanupRestart)
}

/// Something is still owed to `engine`: its ponder search is under way, or
/// its restart at the end.
pub open spec fn owed(v: FlowView, engine: usize) -> bool {
    ponder_owed(v, engine) || restart_owed(v, engine)
}

proof fn lemma_cleanup_owed(v: FlowView, k: nat, engine: usize)
    requires
        ponder_owed(v, engine) || (v.restart_current && v.engines.at(v.turn) == engine),
    ensures
        closes_ponder(spec_cleanup(v, k).pending, engine) || owed(spec_cleanup(v, k), engine),
    decreases 2 - k,
{
    if k < 2 && v.ponder.at(side_index(k)) is None {
        lemma_cleanup_owed(v, k + 1, engine);
    }
}

proof fn lemma_begin_turn_owed(v: FlowView, engine: usize)
    requires
        ponder_owed(v, engine),
    ensures
        closes_ponder(spec_begin_turn(v).pending, engine) || owed(spec_begin_turn(v), engine),
{
}

/// What is owed to an engine is paid by the next action or still owed.
proof fn lemma_owed_step(v: FlowView, e: MatchEvent, engine: usize)
    requires
        flow_wf(v),
        spec_accepts(v, e),
        owed(v, engine),
    ensures
        closes_ponder(spec_next(v, e).pending, engine) || owed(spec_next(v, e), engine),
{
    match v.phase {
        Phase::Preparing(c) => {
            if e is Done && c == Color::Gote {
                lemma_begin_turn_owed(v, engine);
            }
        },
        Phase::Stopping | Phase::Searching => {
            match e {
                MatchEvent::BestMove(rec, t) => {
                    if v.phase is Searching {
                        let stm = v.turn;
                        let total = sat_add(v.elapsed, t);
                        let stepped = spec_step(v.clocks.at(stm), total);
                        let records = v.records.push(kept_record(rec, stm, total, stepped.0));
                        let outcome = spec_after_move(
                            spec_move_outcome(rec.m, stm),
                            stepped.1 == StepResult::TimeElapsed,
                            stm,
                            v.adjudication,
                            records,
                        );
                        let w = FlowView {
                            clocks: v.clocks.with(stm, stepped.0),
                            records,
                            moves: v.moves.push(rec.m),
                            outcome,
                            last_move: Some(rec.m),
                            elapsed: total,
                            ..v
                        };
                        if outcome.spec_is_determined() {
                            lemma_cleanup_owed(FlowView { restart_current: false, ..w }, 0, engine);
                        } else if rec.ponder is None || v.modes.at(stm) == PonderMode::Off {
                            lemma_begin_turn_owed(w, engine);
                        }
                    }
                },
                MatchEvent::TimedOut | MatchEvent::Disconnected => {
                    let outcome = match e {
                        MatchEvent::TimedOut => GameOutcome::LossByClock(v.turn),
                        _ => GameOutcome::LossByDisconnection(v.turn),
                    };
                    lemma_cleanup_owed(FlowView { outcome, restart_current: true, ..v }, 0, engine);
                },
                _ => {
                    let w = counted(v);
                    lemma_cleanup_owed(FlowView { search_error: Some(v.failures), restart_current: true, ..w }, 0, engine);
                },
            }
        },
        Phase::Pondering => {
            if e is Done {
                lemma_begin_turn_owed(v, engine);
            } else {
                let w = FlowView { ponder: v.ponder.with(v.turn, None), ..counted(v) };
                lemma_cleanup_owed(FlowView { search_error: Some(v.failures), restart_current: true, ..w }, 0, engine);
            }
        },
        Phase::CleanupStop(c) => {
            if e is BestMove {
                lemma_cleanup_owed(v, after_side(c), engine);
            }
        },
        Phase::CleanupRestart(c) => {
            if e is Done {
                lemma_cleanup_owed(v, after_side(c), engine);
            } else {
                lemma_cleanup_owed(FlowView { cleanup_error: Some(v.failures), ..counted(v) }, 2, engine);
            }
        },
        _ => {},
    }
}

/// An action that starts a ponder search leaves it owed.
proof fn lemma_start_owed(v: FlowView, e: MatchEvent)
    requires
        flow_wf(v),
        spec_accepts(v, e),
    ensures
        spec_next(v, e).pending matches MatchAction::StartPonder { engine } ==> ponder_owed(spec_next(v, e), engine),
{
    if v.phase is Searching {
        match e {
            MatchEvent::BestMove(rec, t) => {
                let stm = v.turn;
                let total = sat_add(v.elapsed, t);
                let stepped = spec_step(v.clocks.at(stm), total);
                let records = v.records.push(kept_record(rec, stm, total, stepped.0));
                let outcome = spec_after_move(
                    spec_move_outcome(rec.m, stm),
                    stepped.1 == StepResult::TimeElapsed,
                    stm,
                    v.adjudication,
                    records,
                );
                let w = FlowView {
                    clocks: v.clocks.with(stm, stepped.0),
                    records,
                    moves: v.moves.push(rec.m),
                    outcome,
                    last_move: Some(rec.m),
                    elapsed: total,
                    ..v
                };
                if outcome.spec_is_determined() {
                    lemma_cleanup_is_not_start(FlowView { restart_current: false, ..w }, 0);
                } else if rec.ponder is Some && v.modes.at(stm) != PonderMode::Off {
                    let r = spec_next(v, e);
                    assert(r.ponder.at(stm) is Some);
                    assert(r.engines == v.engines);
                    match stm {
                        Color::Sente => assert(r.ponder.sente is Some),
                        Color::Gote => assert(r.ponder.gote is Some),
                    }
                }
            },
            MatchEvent::TimedOut | MatchEvent::Disconnected => {
                let outcome = match e {
                    MatchEvent::TimedOut => GameOutcome::LossByClock(v.turn),
                    _ => GameOutcome::LossByDisconnection(v.turn),
                };
                lemma_cleanup_is_not_start(FlowView { outcome, restart_current: true, ..v }, 0);
            },
            _ => {
                lemma_cleanup_is_not_start(
                    FlowView { search_error: Some(v.failures), restart_current: true, ..counted(v) },
                    0,
                );
            },
        }
    } else {
        lemma_next_not_start(v, e);
    }
}

proof fn lemma_cleanup_is_not_start(v: FlowView, k: nat)
    ensures
        !(spec_cleanup(v, k).pending is StartPonder),
    decreases 2 - k,
{
    if k < 2 && v.ponder.at(side_index(k)) is None {
        lemma_cleanup_is_not_start(v, k + 1);
    }
}

proof fn lemma_next_not_start(v: FlowView, e: MatchEvent)
    requires
        flow_wf(v),
        spec_accepts(v, e),
        !(v.phase is Searching),
    ensures
        !(spec_next(v, e).pending is StartPonder),
{
    match v.phase {
        Phase::Stopping => {
            if !(e is BestMove) && !(e is TimedOut) && !(e is Disconnected) {
                lemma_cleanup_is_not_start(FlowView { search_error: Some(v.failures), restart_current: true, ..counted(v) }, 0);
            } else if !(e is BestMove) {
                let outcome = match e {
                    MatchEvent::TimedOut => GameOutcome::LossByClock(v.turn),
                    _ => GameOutcome::LossByDisconnection(v.turn),
                };
                lemma_cleanup_is_not_start(FlowView { outcome, restart_current: true, ..v }, 0);
            }
        },
        Phase::Pondering => {
            if !(e is Done) {
                let w = FlowView { ponder: v.ponder.with(v.turn, None), ..counted(v) };
                lemma_cleanup_is_not_start(FlowView { search_error: Some(v.failures), restart_current: true, ..w }, 0);
            }
        },
        Phase::CleanupStop(c) => {
            if e is BestMove {
                lemma_cleanup_is_not_start(v, after_side(c));
            }
        },
        Phase::CleanupRestart(c) => {
            if e is Done {
                lemma_cleanup_is_not_start(v, after_side(c));
            } else {
                lemma_cleanup_is_not_start(FlowView { cleanup_error: Some(v.failures), ..counted(v) }, 2);
            }
        },
        _ => {},
    }
}

/// The state of a match from `v` after the first `n` events of `es`.
pub open spec fn state_after(v: FlowView, es: Seq<MatchEvent>, n: nat) -> FlowView
    decreases n,
{
    if n == 0 {
        v
    } else {
        spec_next(state_after(v, es, (n - 1) as nat), es[n - 1])
    }
}

/// Every event of `es` answers the action pending before it.
pub open spec fn run_accepted(v: FlowView, es: Seq<MatchEvent>) -> bool {
    forall|j: nat| j < es.len() ==> spec_accepts(#[trigger] state_after(v, es, j), es[j as int])
}

proof fn lemma_run_wf(v: FlowView, es: Seq<MatchEvent>, n: nat)
    requires
        flow_wf(v),
        run_accepted(v, es),
        n <= es.len(),
    ensures
        flow_wf(state_after(v, es, n)),
    decreases n,
{
    if n > 0 {
        lemma_run_wf(v, es, (n - 1) as nat);
        assert(spec_accepts(state_after(v, es, (n - 1) as nat), es[n - 1]));
        lemma_next_wf(state_after(v, es, (n - 1) as nat), es[n - 1]);
    }
}

proof fn lemma_run_owed(v: FlowView, es: Seq<MatchEvent>, i: nat, n: nat, engine: usize)
    requires
        flow_wf(v),
        v.ponder.sente is None,
        v.ponder.gote is None,
        run_accepted(v, es),
        i <= n <= es.len(),
        state_after(v, es, i).pending == (MatchAction::StartPonder { engine }),
    ensures
        (exists|j: nat| i < j <= n && closes_ponder(#[trigger] state_after(v, es, j).pending, engine))
            || owed(state_after(v, es, n), engine),
    decreases n,
{
    if n == i {
        if i == 0 {
            assert(v.phase is Pondering);
        } else {
            let p = state_after(v, es, (i - 1) as nat);
            lemma_run_wf(v, es, (i - 1) as nat);
            assert(spec_accepts(p, es[i - 1]));
            lemma_start_owed(p, es[i - 1]);
        }
    } else {
        lemma_run_owed(v, es, i, (n - 1) as nat, engine);
        let p = state_after(v, es, (n - 1) as nat);
        if owed(p, engine) {
            lemma_run_wf(v, es, (n - 1) as nat);
            assert(spec_accepts(p, es[n - 1]));
            lemma_owed_step(p, es[n - 1], engine);
        }
    }
}

/// Over a whole match that finishes, every `go ponder` sent to an engine is
/// later answered by a `ponderhit`, a `stop` or a restart of that engine: no
/// ponder search is left running when the match ends.
pub proof fn lemma_every_ponder_answered(v: FlowView, es: Seq<MatchEvent>, i: nat, engine: usize)
    requires
        flow_wf(v),
        v.ponder.sente is None,
        v.ponder.gote is None,
        run_accepted(v, es),
        i <= es.len(),
        state_after(v, es, i).pending == (MatchAction::StartPonder { engine }),
        state_after(v, es, es.len()).pending is Finish,
    ensures
        exists|j: nat| i < j <= es.len() && closes_ponder(#[trigger] state_after(v, es, j).pending, engine),
{
    lemma_run_owed(v, es, i, es.len(), engine);
    lemma_run_wf(v, es, es.len());
}

/// A match starts with nothing owed to any engine.
pub proof fn lemma_initial_flow_clean(
    ticket: MatchTicket,
    options: Seq<EngineOptions>,
    adjudication: AdjudicationOptions,
)
    requires
        ticket.engines[0] < options.len(),
        ticket.engines[1] < options.len(),
        adjudication.resign is Some ==> adjudication.resign->0.score != i32::MIN,
    ensures
        flow_wf(initial_flow(ticket, options, adjudication)),
        initial_flow(ticket, options, adjudication).ponder.sente is None,
        initial_flow(ticket, options, adjudication).ponder.gote is None,
{
}

} // verus!
