//! The rules the match runner applies: adjudication, the USI commands of the
//! ponder protocol, how a played move is recorded, and when to report.

use vstd::prelude::*;
use crate::cli::{AdjudicationOptions, DrawAdjudicationOptions, EngineOptions, PonderMode, ResignAdjudicationOptions};
use crate::engine::{MoveRecord, Score};
use crate::shogi::{Color, GameOutcome, Move};
use crate::tournament::MatchResult;
use crate::text::push_str;

verus! {

/// Runs the matches of a tournament: the engines, how many games run at
/// once, the adjudication rules, and how often to report.
#[derive(Debug)]
pub struct Runner {
    pub engines: Vec<EngineOptions>,
    pub concurrency: u64,
    pub adjudication: AdjudicationOptions,
    pub report_interval: Option<u64>,
}

impl Runner {
    /// A runner with the given settings.
    pub fn new(
        engines: Vec<EngineOptions>,
        concurrency: u64,
        adjudication: AdjudicationOptions,
        report_interval: Option<u64>,
    ) -> (r: Runner)
        ensures
            r.engines == engines,
            r.concurrency == concurrency,
            r.adjudication == adjudication,
            r.report_interval == report_interval,
    {
        Runner { engines, concurrency, adjudication, report_interval }
    }

    /// Whether a report is due after `match_count` completed matches: every
    /// `report_interval` matches, never without an interval.
    pub fn report_due(&self, match_count: u64) -> (r: bool)
        ensures
            r == (match self.report_interval {
                Some(k) => k != 0 && match_count % k == 0,
                None => false,
            }),
    {
        match self.report_interval {
            Some(k) => k != 0 && match_count % k == 0,
            None => false,
        }
    }
}

/// The length of the run of last moves scored within `score` centipawns.
pub open spec fn draw_run(moves: Seq<MoveRecord>, score: i32) -> nat
    decreases moves.len(),
{
    if moves.len() == 0 {
        0
    } else {
        match moves.last().score {
            Score::Cp(cp) => if -score <= cp <= score {
                1 + draw_run(moves.drop_last(), score)
            } else {
                0
            },
            _ => 0,
        }
    }
}

/// A score that, for the side that reported it, is `score` centipawns or
/// worse, or mate against it.
pub open spec fn losing_score(s: Score, score: i32) -> bool {
    match s {
        Score::Unset => false,
        Score::Cp(cp) => cp <= -score,
        Score::Mate(ply) => ply < 0,
    }
}

/// The length of the run of last moves of `stm` (skipping the other side's)
/// scored as losing for `stm`.
pub open spec fn resign_run(moves: Seq<MoveRecord>, stm: Color, score: i32) -> nat
    decreases moves.len(),
{
    if moves.len() == 0 {
        0
    } else if moves.last().stm != Some(stm) {
        resign_run(moves.drop_last(), stm, score)
    } else if losing_score(moves.last().score, score) {
        1 + resign_run(moves.drop_last(), stm, score)
    } else {
        0
    }
}

/// A move whose score says that `stm` is lost: losing for `stm` when `stm`
/// reported it, winning for the reporter when the other side did.
pub open spec fn agrees_lost(m: MoveRecord, stm: Color, score: i32) -> bool {
    match m.score {
        Score::Unset => false,
        Score::Cp(cp) => if m.stm == Some(stm) {
            cp <= -score
        } else {
            cp >= score
        },
        Score::Mate(ply) => if m.stm == Some(stm) {
            ply < 0
        } else {
            ply > 0
        },
    }
}

/// The length of the run of last moves, of both sides, that agree `stm` is lost.
pub open spec fn two_sided_run(moves: Seq<MoveRecord>, stm: Color, score: i32) -> nat
    decreases moves.len(),
{
    if moves.len() == 0 {
        0
    } else if agrees_lost(moves.last(), stm, score) {
        1 + two_sided_run(moves.drop_last(), stm, score)
    } else {
        0
    }
}

/// Whether resign adjudication decides against `stm`.
pub open spec fn resign_triggers(adj: AdjudicationOptions, moves: Seq<MoveRecord>, stm: Color) -> bool {
    match adj.resign {
        Some(r) => if r.two_sided {
            two_sided_run(moves, stm, r.score) >= r.move_count
        } else {
            resign_run(moves, stm, r.score) >= r.move_count
        },
        None => false,
    }
}

/// The outcome of a game after `stm` has moved, under the adjudication
/// rules: an ended game stays ended; otherwise the move limit, then draw
/// adjudication, then resign adjudication decide, each overriding the one
/// before.
pub open spec fn spec_adjudicate(outcome: GameOutcome, stm: Color, adj: AdjudicationOptions, moves: Seq<MoveRecord>) -> GameOutcome {
    if outcome.spec_is_determined() {
        outcome
    } else {
        let o1 = match adj.max_moves {
            Some(mm) => if moves.len() >= mm {
                GameOutcome::DrawByMoveLimit
            } else {
                outcome
            },
            None => outcome,
        };
        let o2 = match adj.draw {
            Some(d) => if moves.len() >= d.move_number && draw_run(moves, d.score) >= d.move_count {
                GameOutcome::DrawByAdjudication
            } else {
                o1
            },
            None => o1,
        };
        if resign_triggers(adj, moves, stm) {
            GameOutcome::WinByAdjudication(stm.spec_flip())
        } else {
            o2
        }
    }
}

fn count_draw_run(moves: &Vec<MoveRecord>, score: i32) -> (r: usize)
    requires
        forall|i: int| 0 <= i < moves@.len() ==> moves@[i].score != Score::Cp(i32::MIN),
    ensures
        r == draw_run(moves@, score),
{
    let mut i = moves.len();
    let mut count: usize = 0;
    assert(moves@.take(i as int) =~= moves@);
    while i > 0
        invariant
            i <= moves@.len(),
            count + i <= moves@.len(),
            moves@.len() <= usize::MAX,
            forall|k: int| 0 <= k < moves@.len() ==> moves@[k].score != Score::Cp(i32::MIN),
            draw_run(moves@, score) == count + draw_run(moves@.take(i as int), score),
        decreases i,
    {
        let ghost pre = moves@.take(i as int);
        assert(pre.last() == moves@[i - 1]);
        assert(pre.drop_last() =~= moves@.take(i - 1));
        let within = match moves[i - 1].score {
            Score::Cp(cp) => {
                let a: i32 = if cp < 0 {
                    -cp
                } else {
                    cp
                };
                a <= score
            },
            _ => false,
        };
        if !within {
            return count;
        }
        count = count + 1;
        i = i - 1;
    }
    count
}

fn count_resign_run(moves: &Vec<MoveRecord>, stm: Color, score: i32) -> (r: usize)
    requires
        score != i32::MIN,
    ensures
        r == resign_run(moves@, stm, score),
{
    let mut i = moves.len();
    let mut count: usize = 0;
    assert(moves@.take(i as int) =~= moves@);
    while i > 0
        invariant
            i <= moves@.len(),
            count + i <= moves@.len(),
            moves@.len() <= usize::MAX,
            score != i32::MIN,
            resign_run(moves@, stm, score) == count + resign_run(moves@.take(i as int), stm, score),
        decreases i,
    {
        let ghost pre = moves@.take(i as int);
        assert(pre.last() == moves@[i - 1]);
        assert(pre.drop_last() =~= moves@.take(i - 1));
        let m = &moves[i - 1];
        if m.stm == Some(stm) {
            let losing = match m.score {
                Score::Unset => false,
                Score::Cp(cp) => cp <= -score,
                Score::Mate(ply) => ply < 0,
            };
            if !losing {
                return count;
            }
            count = count + 1;
        }
        i = i - 1;
    }
    count
}

fn count_two_sided_run(moves: &Vec<MoveRecord>, stm: Color, score: i32) -> (r: usize)
    requires
        score != i32::MIN,
    ensures
        r == two_sided_run(moves@, stm, score),
{
    let mut i = moves.len();
    let mut count: usize = 0;
    assert(moves@.take(i as int) =~= moves@);
    while i > 0
        invariant
            i <= moves@.len(),
            count + i <= moves@.len(),
            moves@.len() <= usize::MAX,
            score != i32::MIN,
            two_sided_run(moves@, stm, score) == count + two_sided_run(moves@.take(i as int), stm, score),
        decreases i,
    {
        let ghost pre = moves@.take(i as int);
        assert(pre.last() == moves@[i - 1]);
        assert(pre.drop_last() =~= moves@.take(i - 1));
        let m = &moves[i - 1];
        let mine = m.stm == Some(stm);
        let agrees = match m.score {
            Score::Unset => false,
            Score::Cp(cp) => if mine {
                cp <= -score
            } else {
                cp >= score
            },
            Score::Mate(ply) => if mine {
                ply < 0
            } else {
                ply > 0
            },
        };
        if !agrees {
            return count;
        }
        count = count + 1;
        i = i - 1;
    }
    count
}

/// Applies the adjudication rules after `stm` has moved.
pub fn do_adjudication(stm: Color, adjudication: &AdjudicationOptions, match_result: &mut MatchResult)
    requires
        adjudication.draw is Some ==> forall|i: int|
            0 <= i < old(match_result).moves@.len() ==> old(match_result).moves@[i].score
                != Score::Cp(i32::MIN),
        adjudication.resign is Some ==> adjudication.resign->0.score != i32::MIN,
        !old(match_result).outcome.spec_is_determined() && resign_triggers(
            *adjudication,
            old(match_result).moves@,
            stm,
        ) ==> old(match_result).moves@.len() > 0 && old(match_result).moves@.last().stm == Some(
            stm,
        ),
    ensures
        final(match_result).outcome == spec_adjudicate(
            old(match_result).outcome,
            stm,
            *adjudication,
            old(match_result).moves@,
        ),
        final(match_result).moves == old(match_result).moves,
        final(match_result).ticket == old(match_result).ticket,
        final(match_result).game_start == old(match_result).game_start,
{
    if match_result.outcome.is_determined() {
        return;
    }
    let len = match_result.moves.len();
    match adjudication.max_moves {
        Some(max_moves) => {
            if len as u64 >= max_moves {
                match_result.outcome = GameOutcome::DrawByMoveLimit;
            }
        },
        None => {},
    }
    match adjudication.draw {
        Some(draw) => {
            if len >= draw.move_number && count_draw_run(&match_result.moves, draw.score)
                >= draw.move_count {
                match_result.outcome = GameOutcome::DrawByAdjudication;
            }
        },
        None => {},
    }
    match adjudication.resign {
        Some(resign) => {
            let run = if resign.two_sided {
                count_two_sided_run(&match_result.moves, stm, resign.score)
            } else {
                count_resign_run(&match_result.moves, stm, resign.score)
            };
            if run >= resign.move_count {
                match_result.outcome = GameOutcome::WinByAdjudication(stm.flip());
            }
        },
        None => {},
    }
}

} // verus!

verus! {

/// `command`, followed by a space and `arguments` when there are any.
pub open spec fn spec_command_with_arguments(command: Seq<char>, arguments: Seq<char>) -> Seq<char> {
    if arguments.len() == 0 {
        command
    } else {
        command + " "@ + arguments
    }
}

/// `command`, followed by a space and `arguments` when there are any.
pub fn command_with_arguments(command: &str, arguments: &str) -> (r: String)
    ensures
        r@ == spec_command_with_arguments(command@, arguments@),
{
    if arguments.unicode_len() == 0 {
        command.to_owned()
    } else {
        let mut s = String::new();
        push_str(&mut s, command);
        push_str(&mut s, " ");
        push_str(&mut s, arguments);
        assert(s@ =~= command@ + " "@ + arguments@);
        s
    }
}

/// The command that starts pondering: none when the engine does not ponder;
/// `go ponder` with the clock in standard pondering; a bare `go ponder` in
/// early pondering.
pub open spec fn spec_ponder_go(mode: PonderMode, time_arguments: Seq<char>) -> Option<Seq<char>> {
    match mode {
        PonderMode::Off => None,
        PonderMode::Standard => Some(spec_command_with_arguments("go ponder"@, time_arguments)),
        PonderMode::Early => Some("go ponder"@),
    }
}

/// The command that turns a correct ponder into the search: `ponderhit` with
/// the clock in early pondering, a bare `ponderhit` otherwise.
pub open spec fn spec_ponder_hit(mode: PonderMode, time_arguments: Seq<char>) -> Seq<char> {
    match mode {
        PonderMode::Early => spec_command_with_arguments("ponderhit"@, time_arguments),
        _ => "ponderhit"@,
    }
}

/// The command that starts pondering in `mode`, if the engine ponders.
pub fn ponder_go_command(mode: PonderMode, time_arguments: &str) -> (r: Option<String>)
    ensures
        match spec_ponder_go(mode, time_arguments@) {
            Some(c) => r matches Some(x) && x@ == c,
            None => r is None,
        },
{
    match mode {
        PonderMode::Off => None,
        PonderMode::Standard => Some(command_with_arguments("go ponder", time_arguments)),
        PonderMode::Early => Some("go ponder".to_owned()),
    }
}

/// The command that turns a correct ponder into the search in `mode`.
pub fn ponder_hit_command(mode: PonderMode, time_arguments: &str) -> (r: String)
    ensures
        r@ == spec_ponder_hit(mode, time_arguments@),
{
    match mode {
        PonderMode::Early => command_with_arguments("ponderhit", time_arguments),
        PonderMode::Off | PonderMode::Standard => "ponderhit".to_owned(),
    }
}

/// Exactly one of the two ponder commands carries the clock: the `go ponder`
/// of standard pondering or the `ponderhit` of early pondering.
pub proof fn lemma_clock_sent_once(mode: PonderMode, time_arguments: Seq<char>)
    requires
        mode != PonderMode::Off,
    ensures
        mode == PonderMode::Standard ==> spec_ponder_go(mode, time_arguments) == Some(
            spec_command_with_arguments("go ponder"@, time_arguments),
        ) && spec_ponder_hit(mode, time_arguments) == "ponderhit"@,
        mode == PonderMode::Early ==> spec_ponder_go(mode, time_arguments) == Some("go ponder"@)
            && spec_ponder_hit(mode, time_arguments) == spec_command_with_arguments(
            "ponderhit"@,
            time_arguments,
        ),
{
}

/// How long to wait for the answer to `stop`, in milliseconds: the protocol's
/// five seconds, or the search's own limit if that is shorter.
pub open spec fn spec_stop_timeout(bestmove_timeout: Option<u64>) -> u64 {
    match bestmove_timeout {
        Some(t) => if t < 5000 {
            t
        } else {
            5000
        },
        None => 5000,
    }
}

/// How long to wait for the answer to `stop`, in milliseconds.
pub fn stop_timeout(bestmove_timeout: Option<u64>) -> (r: u64)
    ensures
        r == spec_stop_timeout(bestmove_timeout),
{
    let protocol_timeout: u64 = 5000;
    match bestmove_timeout {
        Some(t) => if t < protocol_timeout {
            t
        } else {
            protocol_timeout
        },
        None => protocol_timeout,
    }
}

/// A ponder search under way: the move it expects the opponent to play.
#[derive(Debug, Copy, Clone, PartialEq, Eq, Structural)]
pub struct PonderState {
    pub expected_move: Move,
}

/// The outcome after `stm` has played a move: the outcome of the move
/// itself, a loss on time if the clock ran out, then the adjudication rules.
pub open spec fn spec_after_move(
    move_outcome: GameOutcome,
    time_elapsed: bool,
    stm: Color,
    adj: AdjudicationOptions,
    moves: Seq<MoveRecord>,
) -> GameOutcome {
    let o = if time_elapsed {
        GameOutcome::LossByClock(stm)
    } else {
        move_outcome
    };
    spec_adjudicate(o, stm, adj, moves)
}

/// Records a move that `stm` has played and decides the game's outcome:
/// `move_outcome` is what the move itself did to the game, `time_elapsed`
/// whether `stm`'s clock ran out on it.
pub fn record_move(
    match_result: &mut MatchResult,
    record: MoveRecord,
    move_outcome: GameOutcome,
    time_elapsed: bool,
    stm: Color,
    adjudication: &AdjudicationOptions,
)
    requires
        record.stm == Some(stm),
        adjudication.draw is Some ==> record.score
            != Score::Cp(i32::MIN) && forall|i: int|
            0 <= i < old(match_result).moves@.len() ==> old(match_result).moves@[i].score
                != Score::Cp(i32::MIN),
        adjudication.resign is Some ==> adjudication.resign->0.score != i32::MIN,
    ensures
        final(match_result).moves@ == old(match_result).moves@.push(record),
        final(match_result).outcome == spec_after_move(
            move_outcome,
            time_elapsed,
            stm,
            *adjudication,
            old(match_result).moves@.push(record),
        ),
        final(match_result).ticket == old(match_result).ticket,
        final(match_result).game_start == old(match_result).game_start,
{
    match_result.moves.push(record);
    match_result.outcome = move_outcome;
    if time_elapsed {
        match_result.outcome = GameOutcome::LossByClock(stm);
    }
    do_adjudication(stm, adjudication, match_result);
}

} // verus!

verus! {

/// The command that sets up the game's current position on an engine.
pub fn position_command(game: &crate::shogi::Game) -> (r: String)
    requires
        forall|i: int| 0 <= i < game.moves@.len() ==> crate::shogi::move_on_board(game.moves@[i])
            || game.moves@[i] is Null,
    ensures
        r@ == "position "@ + (if game.moves@.len() == 0 {
            game.opening@
        } else {
            game.opening@ + " moves"@ + crate::shogi::moves_text(game.moves@)
        }),
{
    let mut s = String::new();
    push_str(&mut s, "position ");
    let p = game.usi_string();
    push_str(&mut s, p.as_str());
    s
}

/// The command that starts a search with the given clock arguments.
pub fn go_command(time_arguments: &str) -> (r: String)
    ensures
        r@ == "go "@ + time_arguments@,
{
    let mut s = String::new();
    push_str(&mut s, "go ");
    push_str(&mut s, time_arguments);
    s
}

} // verus!

verus! {

/// A move whose centipawn score is at most `limit` away from zero, on
/// either side.
pub open spec fn quiet_score(s: Score, limit: i32) -> bool {
    match s {
        Score::Cp(cp) => (if cp < 0 { -(cp as int) } else { cp as int }) <= limit,
        _ => false,
    }
}

/// The draw run is the number of quiet moves at the end of the game: every
/// move of the run has a centipawn score of at most `score` in absolute
/// value, winning or losing alike, and the move just before the run does
/// not.
pub proof fn lemma_draw_run_is_quiet_tail(moves: Seq<MoveRecord>, score: i32)
    ensures
        draw_run(moves, score) <= moves.len(),
        forall|i: int|
            moves.len() - draw_run(moves, score) <= i < moves.len() ==> quiet_score(
                #[trigger] moves[i].score,
                score,
            ),
        draw_run(moves, score) < moves.len() ==> !quiet_score(
            moves[moves.len() - 1 - draw_run(moves, score)].score,
            score,
        ),
    decreases moves.len(),
{
    if moves.len() > 0 {
        let rest = moves.drop_last();
        lemma_draw_run_is_quiet_tail(rest, score);
        assert forall|i: int|
            moves.len() - draw_run(moves, score) <= i < moves.len() implies quiet_score(
            #[trigger] moves[i].score,
            score,
        ) by {
            if i < moves.len() - 1 {
                assert(moves[i] == rest[i]);
            }
        }
        if draw_run(moves, score) < moves.len() && draw_run(moves, score) > 0 {
            assert(moves[moves.len() - 1 - draw_run(moves, score)] == rest[rest.len() - 1 - draw_run(
                rest,
                score,
            )]);
        }
    }
}

} // verus!

verus! {

/// The last `k` entries of `s` all satisfy `p`.
pub open spec fn tail_all<A>(s: Seq<A>, k: nat, p: spec_fn(A) -> bool) -> bool {
    k <= s.len() && forall|i: int| s.len() - k <= i < s.len() ==> p(#[trigger] s[i])
}

/// `n` is the length of the longest run of entries of `s`, at its end, that
/// satisfy `p`.
pub open spec fn is_tail_run<A>(s: Seq<A>, p: spec_fn(A) -> bool, n: nat) -> bool {
    &&& tail_all(s, n, p)
    &&& n < s.len() ==> !p(s[s.len() - 1 - n])
}

proof fn lemma_tail_run_bound<A>(s: Seq<A>, p: spec_fn(A) -> bool, n: nat, k: nat)
    requires
        is_tail_run(s, p, n),
    ensures
        n >= k <==> tail_all(s, k, p),
{
    if n >= k {
        assert forall|i: int| s.len() - k <= i < s.len() implies p(#[trigger] s[i]) by {
            assert(s.len() - n <= i);
        }
    } else if tail_all(s, k, p) {
        assert(s.len() - k <= s.len() - 1 - n);
        assert(p(s[s.len() - 1 - n]));
    }
}

/// A score of the side that reported it saying it is `limit` centipawns or
/// more behind, or that it is mated.
pub open spec fn reporter_lost(s: Score, limit: i32) -> bool {
    match s {
        Score::Cp(cp) => cp <= -limit,
        Score::Mate(ply) => ply < 0,
        Score::Unset => false,
    }
}

/// A score of the side that reported it saying it is `limit` centipawns or
/// more ahead, or that it mates.
pub open spec fn reporter_won(s: Score, limit: i32) -> bool {
    match s {
        Score::Cp(cp) => cp >= limit,
        Score::Mate(ply) => ply > 0,
        Score::Unset => false,
    }
}

/// The moves that `stm` made, in order.
pub open spec fn own_moves(moves: Seq<MoveRecord>, stm: Color) -> Seq<MoveRecord> {
    moves.filter(|m: MoveRecord| m.stm == Some(stm))
}

/// One-sided resign counting looks at the moves of `stm` alone: the run is
/// the number of its last moves whose scores say it is lost, whatever the
/// other side's moves between them said.
pub proof fn lemma_resign_run_counts_own_moves(moves: Seq<MoveRecord>, stm: Color, score: i32)
    ensures
        is_tail_run(own_moves(moves, stm), |m: MoveRecord| reporter_lost(m.score, score), resign_run(moves, stm, score)),
    decreases moves.len(),
{
    let p = |m: MoveRecord| reporter_lost(m.score, score);
    reveal(Seq::filter);
    if moves.len() > 0 {
        let rest = moves.drop_last();
        lemma_resign_run_counts_own_moves(rest, stm, score);
        let o = own_moves(moves, stm);
        let orest = own_moves(rest, stm);
        assert(moves.filter(|m: MoveRecord| m.stm == Some(stm)) == (if moves.last().stm == Some(stm) {
            rest.filter(|m: MoveRecord| m.stm == Some(stm)).push(moves.last())
        } else {
            rest.filter(|m: MoveRecord| m.stm == Some(stm))
        }));
        if moves.last().stm == Some(stm) {
            assert(o == orest.push(moves.last()));
            if reporter_lost(moves.last().score, score) {
                assert forall|i: int|
                    o.len() - resign_run(moves, stm, score) <= i < o.len() implies p(#[trigger] o[i]) by {
                    if i < o.len() - 1 {
                        assert(o[i] == orest[i]);
                    }
                }
                if resign_run(moves, stm, score) < o.len() {
                    assert(o[o.len() - 1 - resign_run(moves, stm, score)] == orest[orest.len() - 1
                        - resign_run(rest, stm, score)]);
                }
            }
        }
    } else {
        assert(own_moves(moves, stm).len() == 0);
    }
}

/// A move that says `stm` is lost: a losing score of `stm`'s own, or a
/// winning score of the other side.
pub open spec fn says_lost(m: MoveRecord, stm: Color, limit: i32) -> bool {
    if m.stm == Some(stm) {
        reporter_lost(m.score, limit)
    } else {
        reporter_won(m.score, limit)
    }
}

/// Two-sided resign counting looks at the last moves of both sides: the run
/// is the number of last moves that all say `stm` is lost.
pub proof fn lemma_two_sided_run_is_tail(moves: Seq<MoveRecord>, stm: Color, score: i32)
    ensures
        is_tail_run(moves, |m: MoveRecord| says_lost(m, stm, score), two_sided_run(moves, stm, score)),
    decreases moves.len(),
{
    let p = |m: MoveRecord| says_lost(m, stm, score);
    if moves.len() > 0 {
        let rest = moves.drop_last();
        lemma_two_sided_run_is_tail(rest, stm, score);
        assert forall|i: int|
            moves.len() - two_sided_run(moves, stm, score) <= i < moves.len() implies p(#[trigger] moves[i]) by {
            if i < moves.len() - 1 {
                assert(moves[i] == rest[i]);
            }
        }
        if two_sided_run(moves, stm, score) < moves.len() && two_sided_run(moves, stm, score) > 0 {
            assert(moves[moves.len() - 1 - two_sided_run(moves, stm, score)] == rest[rest.len() - 1
                - two_sided_run(rest, stm, score)]);
        }
    }
}

/// The move-number and draw-run conditions of draw adjudication: at least
/// `move_number` moves played and the last `move_count` quiet.
pub open spec fn draw_due(d: DrawAdjudicationOptions, moves: Seq<MoveRecord>) -> bool {
    moves.len() >= d.move_number && tail_all(moves, d.move_count as nat, |m: MoveRecord| quiet_score(m.score, d.score))
}

/// The condition of resign adjudication against `stm`: its last
/// `move_count` moves say it is lost (one-sided), or the last `move_count`
/// moves of both sides do (two-sided).
pub open spec fn resign_due(r: ResignAdjudicationOptions, moves: Seq<MoveRecord>, stm: Color) -> bool {
    if r.two_sided {
        tail_all(moves, r.move_count as nat, |m: MoveRecord| says_lost(m, stm, r.score))
    } else {
        tail_all(own_moves(moves, stm), r.move_count as nat, |m: MoveRecord| reporter_lost(m.score, r.score))
    }
}

/// What adjudication does to a game after `stm` has moved: an ended game
/// stays ended; otherwise the outcome is kept or becomes a draw by the move
/// limit, a draw by adjudication, or a win for the other side; the move
/// limit ends the game once reached; quiet last moves give a draw, and
/// only they do; a resign adjudication gives the game to the opponent of
/// `stm`, and only when its condition holds.
pub proof fn lemma_adjudication_outcomes(
    outcome: GameOutcome,
    stm: Color,
    adj: AdjudicationOptions,
    moves: Seq<MoveRecord>,
)
    ensures
        ({
            let r = spec_adjudicate(outcome, stm, adj, moves);
            &&& outcome.spec_is_determined() ==> r == outcome
            &&& r == outcome || r == GameOutcome::DrawByMoveLimit || r == GameOutcome::DrawByAdjudication
                || r == GameOutcome::WinByAdjudication(stm.spec_flip())
            &&& r.spec_winner() != Some(stm) || r == outcome
            &&& !outcome.spec_is_determined() && (adj.max_moves matches Some(mm) && moves.len() >= mm)
                ==> r.spec_is_determined()
            &&& !outcome.spec_is_determined() && (adj.draw matches Some(d) && draw_due(d, moves))
                ==> (r == GameOutcome::DrawByAdjudication || r == GameOutcome::WinByAdjudication(
                stm.spec_flip(),
            ))
            &&& (r == GameOutcome::DrawByAdjudication && r != outcome) ==> (adj.draw matches Some(d)
                && draw_due(d, moves))
            &&& !outcome.spec_is_determined() ==> (r == GameOutcome::WinByAdjudication(stm.spec_flip())
                <==> (adj.resign matches Some(rs) && resign_due(rs, moves, stm)))
        }),
{
    match adj.draw {
        Some(d) => {
            lemma_draw_run_is_quiet_tail(moves, d.score);
            let p = |m: MoveRecord| quiet_score(m.score, d.score);
            assert(is_tail_run(moves, p, draw_run(moves, d.score)));
            lemma_tail_run_bound(moves, p, draw_run(moves, d.score), d.move_count as nat);
        },
        None => {},
    }
    match adj.resign {
        Some(rs) => {
            if rs.two_sided {
                lemma_two_sided_run_is_tail(moves, stm, rs.score);
                lemma_tail_run_bound(
                    moves,
                    |m: MoveRecord| says_lost(m, stm, rs.score),
                    two_sided_run(moves, stm, rs.score),
                    rs.move_count as nat,
                );
            } else {
                lemma_resign_run_counts_own_moves(moves, stm, rs.score);
                lemma_tail_run_bound(
                    own_moves(moves, stm),
                    |m: MoveRecord| reporter_lost(m.score, rs.score),
                    resign_run(moves, stm, rs.score),
                    rs.move_count as nat,
                );
            }
        },
        None => {},
    }
}

} // verus!
