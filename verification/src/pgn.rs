//! The game record: the text appended to the record file for each game, a
//! block of tag lines, one line per move with its search notes in braces,
//! and the result.

use vstd::prelude::*;
use crate::cli::{MetaDataOptions, PgnOutOptions};
use crate::engine::{MoveRecord, Score};
use crate::shogi::{Color, GameOutcome};
use crate::text::{decimal_chars, decimal_string, push_char, push_decimal, push_str};
use crate::tournament::MatchResult;

verus! {

/// The decimal form of `n`, with a minus sign when it is negative.
pub open spec fn signed_chars(n: int) -> Seq<char> {
    if n < 0 {
        seq!['-'] + decimal_chars((-n) as nat)
    } else {
        decimal_chars(n as nat)
    }
}

/// A score in centipawns written in pawns: always signed, two decimals.
pub open spec fn pawns_chars(cp: int) -> Seq<char> {
    let a: nat = if cp < 0 { (-cp) as nat } else { cp as nat };
    let sign = if cp < 0 { seq!['-'] } else { seq!['+'] };
    sign + decimal_chars(a / 100) + seq!['.'] + decimal_chars((a % 100) / 10) + decimal_chars(a % 10)
}

/// The note on the score of a move, followed by a space; none for a move
/// without a score.
pub open spec fn score_note(s: Score) -> Seq<char> {
    match s {
        Score::Cp(cp) => pawns_chars(cp as int) + seq![' '],
        Score::Mate(ply) => seq!['M'] + signed_chars(ply as int) + seq![' '],
        Score::Unset => Seq::empty(),
    }
}

/// ` name=value` when `on`, else nothing.
#[verifier::opaque]
pub open spec fn opt_note(on: bool, name: Seq<char>, value: Seq<char>) -> Seq<char> {
    if on {
        seq![' '] + name + seq!['='] + value
    } else {
        Seq::empty()
    }
}

/// The first notes on a move: its score, depth, selective depth when
/// tracked, and measured time.
pub open spec fn spec_notes_head(r: MoveRecord, o: PgnOutOptions) -> Seq<char> {
    score_note(r.score) + seq!['d', '='] + decimal_chars(r.depth as nat)
        + opt_note(o.track_seldepth, "sd"@, decimal_chars(r.seldepth as nat))
        + seq![' ', 'm', 't', '='] + decimal_chars(r.measured_time as nat)
}

/// The tracked figures that follow: time left, latency (measured time less
/// the time the engine reported), nodes, speed and hash use.
pub open spec fn spec_notes_tail(r: MoveRecord, o: PgnOutOptions) -> Seq<char> {
    opt_note(o.track_timeleft && r.time_left is Some, "tl"@, decimal_chars(r.time_left.unwrap_or(0) as nat))
        + opt_note(o.track_latency, "latency"@, signed_chars(r.measured_time - r.engine_time))
        + opt_note(o.track_nodes, "n"@, decimal_chars(r.nodes as nat))
        + opt_note(o.track_nps, "nps"@, decimal_chars(r.nps as nat))
        + opt_note(o.track_hashfull, "hashfull"@, decimal_chars(r.hashfull as nat))
}

/// The notes on one move: its score, depth and measured time, then the
/// figures that the options ask to track.
pub open spec fn spec_move_notes(r: MoveRecord, o: PgnOutOptions) -> Seq<char> {
    spec_notes_head(r, o) + spec_notes_tail(r, o)
}

/// The line of the move numbered `i` (from 0): its number from 1, the move
/// as the engine wrote it, and its notes in braces.
pub open spec fn spec_move_line(i: nat, r: MoveRecord, o: PgnOutOptions) -> Seq<char> {
    decimal_chars(i + 1) + seq!['.', ' '] + r.mstr@ + seq![' ', '{'] + spec_move_notes(r, o) + seq!['}', '\n']
}

/// The lines of the moves `ms`, in order.
pub open spec fn spec_moves_text(ms: Seq<MoveRecord>, o: PgnOutOptions) -> Seq<char>
    decreases ms.len(),
{
    if ms.len() == 0 {
        Seq::empty()
    } else {
        spec_moves_text(ms.drop_last(), o) + spec_move_line((ms.len() - 1) as nat, ms.last(), o)
    }
}

/// The result tag: `1-0` when Sente won, `0-1` when Gote won, `1/2-1/2` for
/// a draw, `*` for a game that did not end.
pub open spec fn spec_result_text(outcome: GameOutcome) -> Seq<char> {
    match outcome.spec_winner() {
        Some(Color::Sente) => "1-0"@,
        Some(Color::Gote) => "0-1"@,
        None => if outcome.spec_is_determined() {
            "1/2-1/2"@
        } else {
            "*"@
        },
    }
}

/// The name of a side.
pub open spec fn color_name(c: Color) -> Seq<char> {
    match c {
        Color::Sente => "Sente"@,
        Color::Gote => "Gote"@,
    }
}

/// How the game ended, in words.
pub open spec fn spec_termination(outcome: GameOutcome) -> Seq<char> {
    match outcome {
        GameOutcome::Undetermined => "undetermined"@,
        GameOutcome::DrawByMoveLimit => "draw by move limit"@,
        GameOutcome::DrawByAdjudication => "draw by adjudication"@,
        GameOutcome::DrawByRepetition => "draw by repetition"@,
        GameOutcome::WinByAdjudication(c) => color_name(c) + " wins by adjudication"@,
        GameOutcome::WinByDeclaration(c) => color_name(c) + " wins by declaration"@,
        GameOutcome::LossByResignation(c) => color_name(c) + " resigns"@,
        GameOutcome::LossByClock(c) => color_name(c) + " loses on time"@,
        GameOutcome::LossByDisconnection(c) => color_name(c) + " disconnects"@,
        GameOutcome::LossByIllegalMove(c) => color_name(c) + " makes an illegal move"@,
    }
}

/// A tag line: `[name "value"]`.
pub open spec fn tag_line(name: Seq<char>, value: Seq<char>) -> Seq<char> {
    seq!['['] + name + seq![' ', '"'] + value + seq!['"', ']', '\n']
}

/// The record of a game: the tag lines (event, site, date, round from 1,
/// the engines of Sente and Gote, result, starting position, how it ended),
/// an empty line, the move lines, and the result followed by an empty line.
pub open spec fn spec_game_record(
    result: MatchResult,
    sente_name: Seq<char>,
    gote_name: Seq<char>,
    meta: MetaDataOptions,
    date: Seq<char>,
    o: PgnOutOptions,
) -> Seq<char> {
    tag_line("Event"@, meta.event_name@) + tag_line("Site"@, meta.site_name@) + tag_line("Date"@, date)
        + tag_line("Round"@, decimal_chars((result.ticket.id + 1) as nat)) + tag_line("White"@, sente_name)
        + tag_line("Black"@, gote_name) + tag_line("Result"@, spec_result_text(result.outcome))
        + tag_line("FEN"@, result.ticket.opening@) + tag_line(
        "Termination"@,
        spec_termination(result.outcome),
    ) + seq!['\n'] + spec_moves_text(result.moves@, o) + spec_result_text(result.outcome) + seq![
        '\n',
        '\n',
    ]
}

/// Appends the decimal form of `n`, with a minus sign when `negative`.
fn push_signed(s: &mut String, negative: bool, n: u64)
    ensures
        final(s)@ == old(s)@ + (if negative {
            seq!['-'] + decimal_chars(n as nat)
        } else {
            decimal_chars(n as nat)
        }),
{
    if negative {
        push_char(s, '-');
    }
    push_decimal(s, n);
    assert(s@ =~= old(s)@ + (if negative {
        seq!['-'] + decimal_chars(n as nat)
    } else {
        decimal_chars(n as nat)
    }));
}

/// The absolute value of `x`.
fn magnitude(x: i32) -> (r: u64)
    ensures
        r == (if x < 0 { -x } else { x as int }),
{
    if x < 0 {
        (-(x as i64)) as u64
    } else {
        x as u64
    }
}

/// Appends the note on a score.
fn push_score_note(s: &mut String, score: Score)
    ensures
        final(s)@ == old(s)@ + score_note(score),
{
    match score {
        Score::Cp(cp) => {
            let a = magnitude(cp);
            if cp < 0 {
                push_char(s, '-');
            } else {
                push_char(s, '+');
            }
            push_decimal(s, a / 100);
            push_char(s, '.');
            push_decimal(s, (a % 100) / 10);
            push_decimal(s, a % 10);
            push_char(s, ' ');
            assert(s@ =~= old(s)@ + score_note(score));
        },
        Score::Mate(ply) => {
            push_char(s, 'M');
            push_signed(s, ply < 0, magnitude(ply));
            push_char(s, ' ');
            assert(s@ =~= old(s)@ + score_note(score));
        },
        Score::Unset => {
            assert(s@ =~= old(s)@ + score_note(score));
        },
    }
}

/// Appends ` name=value` when `on`.
fn push_opt_note(s: &mut String, on: bool, name: &str, value: &str)
    ensures
        final(s)@ == old(s)@ + opt_note(on, name@, value@),
{
    reveal(opt_note);
    if on {
        push_char(s, ' ');
        push_str(s, name);
        push_char(s, '=');
        push_str(s, value);
    }
    assert(s@ =~= old(s)@ + opt_note(on, name@, value@));
}

/// The decimal form of `a - b`, with a minus sign when it is negative.
fn difference_string(a: u64, b: u64) -> (t: String)
    ensures
        t@ == signed_chars(a - b),
{
    let mut s = String::new();
    if a >= b {
        push_signed(&mut s, false, a - b);
    } else {
        push_signed(&mut s, true, b - a);
    }
    assert(s@ =~= signed_chars(a - b));
    s
}

fn push_notes_head(s: &mut String, r: &MoveRecord, o: &PgnOutOptions)
    ensures
        final(s)@ == old(s)@ + spec_notes_head(*r, *o),
{
    push_score_note(s, r.score);
    push_char(s, 'd');
    push_char(s, '=');
    push_decimal(s, r.depth as u64);
    let sd = decimal_string(r.seldepth as u64);
    push_opt_note(s, o.track_seldepth, "sd", sd.as_str());
    push_char(s, ' ');
    push_char(s, 'm');
    push_char(s, 't');
    push_char(s, '=');
    push_decimal(s, r.measured_time);
    assert(s@ =~= old(s)@ + spec_notes_head(*r, *o));
}

fn push_notes_tail(s: &mut String, r: &MoveRecord, o: &PgnOutOptions)
    ensures
        final(s)@ == old(s)@ + spec_notes_tail(*r, *o),
{
    let tl = match r.time_left {
        Some(t) => decimal_string(t),
        None => decimal_string(0),
    };
    push_opt_note(s, o.track_timeleft && r.time_left.is_some(), "tl", tl.as_str());
    let latency = difference_string(r.measured_time, r.engine_time);
    push_opt_note(s, o.track_latency, "latency", latency.as_str());
    let nodes = decimal_string(r.nodes);
    push_opt_note(s, o.track_nodes, "n", nodes.as_str());
    let nps = decimal_string(r.nps);
    push_opt_note(s, o.track_nps, "nps", nps.as_str());
    let hashfull = decimal_string(r.hashfull as u64);
    push_opt_note(s, o.track_hashfull, "hashfull", hashfull.as_str());
    assert(s@ =~= old(s)@ + spec_notes_tail(*r, *o));
}

/// The notes on one move.
pub fn move_notes(r: &MoveRecord, o: &PgnOutOptions) -> (t: String)
    ensures
        t@ == spec_move_notes(*r, *o),
{
    let mut s = String::new();
    push_notes_head(&mut s, r, o);
    push_notes_tail(&mut s, r, o);
    assert(s@ =~= spec_move_notes(*r, *o));
    s
}

/// Appends the line of the move numbered `i` (from 0).
fn push_move_line(s: &mut String, i: usize, r: &MoveRecord, o: &PgnOutOptions)
    requires
        i < usize::MAX,
    ensures
        final(s)@ == old(s)@ + spec_move_line(i as nat, *r, *o),
{
    push_decimal(s, (i + 1) as u64);
    push_char(s, '.');
    push_char(s, ' ');
    push_str(s, r.mstr.as_str());
    push_char(s, ' ');
    push_char(s, '{');
    let notes = move_notes(r, o);
    push_str(s, notes.as_str());
    push_char(s, '}');
    push_char(s, '\n');
    assert(s@ =~= old(s)@ + spec_move_line(i as nat, *r, *o));
}

/// The line of the move numbered `i` (from 0); a move's place in a list is
/// always below `usize::MAX`.
pub fn move_line(i: usize, r: &MoveRecord, o: &PgnOutOptions) -> (t: String)
    requires
        i < usize::MAX,
    ensures
        t@ == spec_move_line(i as nat, *r, *o),
{
    let mut s = String::new();
    push_move_line(&mut s, i, r, o);
    assert(s@ =~= spec_move_line(i as nat, *r, *o));
    s
}

/// The result tag of a game.
pub fn result_text(outcome: &GameOutcome) -> (t: &'static str)
    ensures
        t@ == spec_result_text(*outcome),
{
    match outcome.winner() {
        Some(Color::Sente) => "1-0",
        Some(Color::Gote) => "0-1",
        None => if outcome.is_determined() {
            "1/2-1/2"
        } else {
            "*"
        },
    }
}

fn push_color_name(s: &mut String, c: Color)
    ensures
        final(s)@ == old(s)@ + color_name(c),
{
    match c {
        Color::Sente => push_str(s, "Sente"),
        Color::Gote => push_str(s, "Gote"),
    }
}

/// How a game ended, in words.
pub fn termination_text(outcome: &GameOutcome) -> (t: String)
    ensures
        t@ == spec_termination(*outcome),
{
    let mut s = String::new();
    match *outcome {
        GameOutcome::Undetermined => push_str(&mut s, "undetermined"),
        GameOutcome::DrawByMoveLimit => push_str(&mut s, "draw by move limit"),
        GameOutcome::DrawByAdjudication => push_str(&mut s, "draw by adjudication"),
        GameOutcome::DrawByRepetition => push_str(&mut s, "draw by repetition"),
        GameOutcome::WinByAdjudication(c) => {
            push_color_name(&mut s, c);
            push_str(&mut s, " wins by adjudication");
        },
        GameOutcome::WinByDeclaration(c) => {
            push_color_name(&mut s, c);
            push_str(&mut s, " wins by declaration");
        },
        GameOutcome::LossByResignation(c) => {
            push_color_name(&mut s, c);
            push_str(&mut s, " resigns");
        },
        GameOutcome::LossByClock(c) => {
            push_color_name(&mut s, c);
            push_str(&mut s, " loses on time");
        },
        GameOutcome::LossByDisconnection(c) => {
            push_color_name(&mut s, c);
            push_str(&mut s, " disconnects");
        },
        GameOutcome::LossByIllegalMove(c) => {
            push_color_name(&mut s, c);
            push_str(&mut s, " makes an illegal move");
        },
    }
    assert(s@ =~= spec_termination(*outcome));
    s
}

/// Appends a tag line.
fn push_tag(s: &mut String, name: &str, value: &str)
    ensures
        final(s)@ == old(s)@ + tag_line(name@, value@),
{
    push_char(s, '[');
    push_str(s, name);
    push_char(s, ' ');
    push_char(s, '"');
    push_str(s, value);
    push_char(s, '"');
    push_char(s, ']');
    push_char(s, '\n');
    assert(s@ =~= old(s)@ + tag_line(name@, value@));
}

/// Appends the lines of the moves `ms`.
fn push_moves(s: &mut String, ms: &Vec<MoveRecord>, o: &PgnOutOptions)
    ensures
        final(s)@ == old(s)@ + spec_moves_text(ms@, *o),
{
    let mut i: usize = 0;
    while i < ms.len()
        invariant
            i <= ms.len(),
            s@ == old(s)@ + spec_moves_text(ms@.take(i as int), *o),
        decreases ms.len() - i,
    {
        push_move_line(s, i, &ms[i], o);
        assert(ms@.take(i as int + 1).drop_last() =~= ms@.take(i as int));
        assert(s@ =~= old(s)@ + spec_moves_text(ms@.take(i as int + 1), *o));
        i = i + 1;
    }
    assert(ms@.take(ms.len() as int) =~= ms@);
}

/// The record of a game, with the names of the engines that played Sente
/// and Gote and the date on which it started.
pub fn game_record(
    result: &MatchResult,
    sente_name: &str,
    gote_name: &str,
    meta: &MetaDataOptions,
    date: &str,
    o: &PgnOutOptions,
) -> (t: String)
    requires
        result.ticket.id < u64::MAX,
    ensures
        t@ == spec_game_record(*result, sente_name@, gote_name@, *meta, date@, *o),
{
    let mut s = String::new();
    push_tag(&mut s, "Event", meta.event_name.as_str());
    push_tag(&mut s, "Site", meta.site_name.as_str());
    push_tag(&mut s, "Date", date);
    let round = decimal_string(result.ticket.id + 1);
    push_tag(&mut s, "Round", round.as_str());
    push_tag(&mut s, "White", sente_name);
    push_tag(&mut s, "Black", gote_name);
    push_tag(&mut s, "Result", result_text(&result.outcome));
    push_tag(&mut s, "FEN", result.ticket.opening.as_str());
    let termination = termination_text(&result.outcome);
    push_tag(&mut s, "Termination", termination.as_str());
    push_char(&mut s, '\n');
    push_moves(&mut s, &result.moves, o);
    push_str(&mut s, result_text(&result.outcome));
    push_char(&mut s, '\n');
    push_char(&mut s, '\n');
    assert(s@ =~= spec_game_record(*result, sente_name@, gote_name@, *meta, date@, *o));
    s
}

} // verus!

verus! {

/// The result tag credits the winner: `1-0` exactly when Sente won, `0-1`
/// exactly when Gote won, `1/2-1/2` exactly for a drawn finished game and
/// `*` exactly for a game that goes on.
pub proof fn lemma_result_tag_follows_winner(o: GameOutcome)
    ensures
        spec_result_text(o) == "1-0"@ <==> o.spec_winner() == Some(Color::Sente),
        spec_result_text(o) == "0-1"@ <==> o.spec_winner() == Some(Color::Gote),
        spec_result_text(o) == "1/2-1/2"@ <==> (o.spec_is_determined() && o.spec_winner() is None),
        spec_result_text(o) == "*"@ <==> !o.spec_is_determined(),
{
    reveal_strlit("1-0");
    reveal_strlit("0-1");
    reveal_strlit("1/2-1/2");
    reveal_strlit("*");
    assert("1-0"@[0] != "0-1"@[0]);
    assert("1-0"@.len() != "1/2-1/2"@.len() && "1-0"@.len() != "*"@.len());
    assert("0-1"@.len() != "1/2-1/2"@.len() && "0-1"@.len() != "*"@.len());
    assert("1/2-1/2"@.len() != "*"@.len());
    crate::shogi::lemma_named_side_wins(o, Color::Sente);
}

} // verus!
