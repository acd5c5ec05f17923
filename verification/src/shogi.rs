//! Sides, moves in USI notation, and game outcomes.

use vstd::prelude::*;
use crate::text::{str_eq, push_char, push_str};

verus! {

/// The side to move: Sente moves first, Gote second.
#[derive(Debug, Clone, Copy, PartialEq, Eq, Structural)]
pub enum Color {
    Sente,
    Gote,
}

impl Color {
    /// The other side.
    pub open spec fn spec_flip(self) -> Color {
        match self {
            Color::Sente => Color::Gote,
            Color::Gote => Color::Sente,
        }
    }

    /// The other side (`!color` in the USI runner).
    pub fn flip(self) -> (r: Color)
        ensures
            r == self.spec_flip(),
    {
        match self {
            Color::Sente => Color::Gote,
            Color::Gote => Color::Sente,
        }
    }

    /// The position of this side in per-side arrays.
    pub open spec fn spec_index(self) -> usize {
        match self {
            Color::Sente => 0,
            Color::Gote => 1,
        }
    }

    /// 0 for Sente, 1 for Gote.
    pub fn to_index(self) -> (r: usize)
        ensures
            r == self.spec_index(),
    {
        match self {
            Color::Sente => 0,
            Color::Gote => 1,
        }
    }

    /// The side whose per-side index is `i`.
    pub fn from_index(i: usize) -> (r: Color)
        requires
            i < 2,
        ensures
            r.spec_index() == i,
    {
        if i == 0 {
            Color::Sente
        } else {
            Color::Gote
        }
    }
}

/// Flipping twice gives the side back, and the two sides have different indices.
pub proof fn lemma_flip_involution(c: Color)
    ensures
        c.spec_flip().spec_flip() == c,
        c.spec_flip() != c,
        c.spec_flip().spec_index() != c.spec_index(),
{
}

/// A piece that can be dropped from the hand.
#[derive(Debug, Clone, Copy, PartialEq, Eq, Structural)]
pub enum Piece {
    Pawn,
    Lance,
    Knight,
    Silver,
    Gold,
    Bishop,
    Rook,
}

/// A square: file 1..=9 (written `1`..`9`) and rank 1..=9 (written `a`..`i`).
#[derive(Debug, Clone, Copy, PartialEq, Eq, Structural)]
pub struct Square {
    pub file: u8,
    pub rank: u8,
}

impl Square {
    /// Both coordinates lie on the board.
    pub open spec fn valid(self) -> bool {
        1 <= self.file <= 9 && 1 <= self.rank <= 9
    }
}

/// A move as an engine reports it in USI notation.
#[derive(Debug, Clone, Copy, PartialEq, Eq, Structural)]
pub enum Move {
    /// No move (the value of a record that has none yet).
    Null,
    /// A board move, optionally promoting (`7g7f`, `8h2b+`).
    Normal { from: Square, to: Square, promote: bool },
    /// A drop from the hand (`P*5e`).
    Drop(Piece, Square),
    /// The engine resigns (`resign`).
    Resign,
    /// The engine declares a win (`win`).
    Win,
}

impl Default for Move {
    fn default() -> (r: Move)
        ensures
            r == Move::Null,
    {
        Move::Null
    }
}

/// The file written by `c`.
pub open spec fn spec_file_of(c: char) -> Option<u8> {
    if '1' <= c && c <= '9' {
        Some(((c as int) - ('0' as int)) as u8)
    } else {
        None
    }
}

/// The rank written by `c`.
pub open spec fn spec_rank_of(c: char) -> Option<u8> {
    if 'a' <= c && c <= 'i' {
        Some(((c as int) - ('a' as int) + 1) as u8)
    } else {
        None
    }
}

/// The piece written by `c`.
pub open spec fn spec_piece_of(c: char) -> Option<Piece> {
    if c == 'P' {
        Some(Piece::Pawn)
    } else if c == 'L' {
        Some(Piece::Lance)
    } else if c == 'N' {
        Some(Piece::Knight)
    } else if c == 'S' {
        Some(Piece::Silver)
    } else if c == 'G' {
        Some(Piece::Gold)
    } else if c == 'B' {
        Some(Piece::Bishop)
    } else if c == 'R' {
        Some(Piece::Rook)
    } else {
        None
    }
}

/// The square written by the two characters `f` and `r`.
pub open spec fn spec_square_of(f: char, r: char) -> Option<Square> {
    match (spec_file_of(f), spec_rank_of(r)) {
        (Some(file), Some(rank)) => Some(Square { file, rank }),
        _ => None,
    }
}

/// The move that the USI text `s` denotes, if any.
pub open spec fn spec_parse_move(s: Seq<char>) -> Option<Move> {
    if s == "resign"@ {
        Some(Move::Resign)
    } else if s == "win"@ {
        Some(Move::Win)
    } else if s.len() == 4 && s[1] == '*' {
        match (spec_piece_of(s[0]), spec_square_of(s[2], s[3])) {
            (Some(p), Some(sq)) => Some(Move::Drop(p, sq)),
            _ => None,
        }
    } else if s.len() == 4 || (s.len() == 5 && s[4] == '+') {
        match (spec_square_of(s[0], s[1]), spec_square_of(s[2], s[3])) {
            (Some(from), Some(to)) => Some(Move::Normal { from, to, promote: s.len() == 5 }),
            _ => None,
        }
    } else {
        None
    }
}

fn file_of(c: char) -> (r: Option<u8>)
    ensures
        r == spec_file_of(c),
{
    if '1' <= c && c <= '9' {
        Some((c as u32 - '0' as u32) as u8)
    } else {
        None
    }
}

fn rank_of(c: char) -> (r: Option<u8>)
    ensures
        r == spec_rank_of(c),
{
    if 'a' <= c && c <= 'i' {
        Some((c as u32 - 'a' as u32 + 1) as u8)
    } else {
        None
    }
}

fn piece_of(c: char) -> (r: Option<Piece>)
    ensures
        r == spec_piece_of(c),
{
    if c == 'P' {
        Some(Piece::Pawn)
    } else if c == 'L' {
        Some(Piece::Lance)
    } else if c == 'N' {
        Some(Piece::Knight)
    } else if c == 'S' {
        Some(Piece::Silver)
    } else if c == 'G' {
        Some(Piece::Gold)
    } else if c == 'B' {
        Some(Piece::Bishop)
    } else if c == 'R' {
        Some(Piece::Rook)
    } else {
        None
    }
}

fn square_of(f: char, r: char) -> (res: Option<Square>)
    ensures
        res == spec_square_of(f, r),
{
    match (file_of(f), rank_of(r)) {
        (Some(file), Some(rank)) => Some(Square { file, rank }),
        _ => None,
    }
}

impl Move {
    /// Reads a move in USI notation.
    pub fn parse(s: &str) -> (r: Option<Move>)
        ensures
            r == spec_parse_move(s@),
    {
        if str_eq(s, "resign") {
            return Some(Move::Resign);
        }
        if str_eq(s, "win") {
            return Some(Move::Win);
        }
        let len = s.unicode_len();
        if len == 4 && s.get_char(1) == '*' {
            return match (piece_of(s.get_char(0)), square_of(s.get_char(2), s.get_char(3))) {
                (Some(p), Some(sq)) => Some(Move::Drop(p, sq)),
                _ => None,
            };
        }
        if len == 4 || (len == 5 && s.get_char(4) == '+') {
            match (square_of(s.get_char(0), s.get_char(1)), square_of(s.get_char(2), s.get_char(3))) {
                (Some(from), Some(to)) => Some(Move::Normal { from, to, promote: len == 5 }),
                _ => None,
            }
        } else {
            None
        }
    }

    /// A board move or a drop, the moves that a position can be advanced by.
    pub open spec fn is_board_move(self) -> bool {
        self is Normal || self is Drop
    }
}

} // verus!

verus! {

/// The character that writes file `f`.
pub open spec fn file_char(f: u8) -> char {
    ((f as int) + 48) as char
}

/// The character that writes rank `r`.
pub open spec fn rank_char(r: u8) -> char {
    ((r as int) + 96) as char
}

/// The character that writes piece `p` in a drop.
pub open spec fn piece_char(p: Piece) -> char {
    match p {
        Piece::Pawn => 'P',
        Piece::Lance => 'L',
        Piece::Knight => 'N',
        Piece::Silver => 'S',
        Piece::Gold => 'G',
        Piece::Bishop => 'B',
        Piece::Rook => 'R',
    }
}

/// The USI text of a move; the null move is written `0000`.
pub open spec fn spec_usi(m: Move) -> Seq<char> {
    match m {
        Move::Null => seq!['0', '0', '0', '0'],
        Move::Normal { from, to, promote } => {
            let base = seq![file_char(from.file), rank_char(from.rank), file_char(to.file), rank_char(to.rank)];
            if promote {
                base.push('+')
            } else {
                base
            }
        },
        Move::Drop(p, sq) => seq![piece_char(p), '*', file_char(sq.file), rank_char(sq.rank)],
        Move::Resign => "resign"@,
        Move::Win => "win"@,
    }
}

/// A move whose squares all lie on the board.
pub open spec fn move_on_board(m: Move) -> bool {
    match m {
        Move::Null => false,
        Move::Normal { from, to, promote: _ } => from.valid() && to.valid(),
        Move::Drop(_, sq) => sq.valid(),
        Move::Resign | Move::Win => true,
    }
}

fn push_square(s: &mut String, sq: Square)
    requires
        sq.valid(),
    ensures
        final(s)@ == old(s)@ + seq![file_char(sq.file), rank_char(sq.rank)],
{
    push_char(s, ((sq.file + 48) as u8) as char);
    push_char(s, ((sq.rank + 96) as u8) as char);
    assert(s@ =~= old(s)@ + seq![file_char(sq.file), rank_char(sq.rank)]);
}

impl Move {
    /// Writes the move in USI notation.
    pub fn to_usi(&self) -> (r: String)
        requires
            move_on_board(*self) || *self is Null,
        ensures
            r@ == spec_usi(*self),
    {
        match *self {
            Move::Null => {
                let mut s = String::new();
                push_str(&mut s, "0000");
                proof {
                    reveal_strlit("0000");
                }
                assert(s@ =~= spec_usi(*self));
                s
            },
            Move::Normal { from, to, promote } => {
                let mut s = String::new();
                push_square(&mut s, from);
                push_square(&mut s, to);
                if promote {
                    push_char(&mut s, '+');
                }
                assert(s@ =~= spec_usi(*self));
                s
            },
            Move::Drop(p, sq) => {
                let mut s = String::new();
                let c = match p {
                    Piece::Pawn => 'P',
                    Piece::Lance => 'L',
                    Piece::Knight => 'N',
                    Piece::Silver => 'S',
                    Piece::Gold => 'G',
                    Piece::Bishop => 'B',
                    Piece::Rook => 'R',
                };
                push_char(&mut s, c);
                push_char(&mut s, '*');
                push_square(&mut s, sq);
                assert(s@ =~= spec_usi(*self));
                s
            },
            Move::Resign => {
                let mut s = String::new();
                push_str(&mut s, "resign");
                assert(s@ =~= spec_usi(*self));
                s
            },
            Move::Win => {
                let mut s = String::new();
                push_str(&mut s, "win");
                assert(s@ =~= spec_usi(*self));
                s
            },
        }
    }
}

/// Reading back the USI text of a move on the board gives the move.
pub proof fn lemma_usi_roundtrip(m: Move)
    requires
        move_on_board(m),
    ensures
        spec_parse_move(spec_usi(m)) == Some(m),
{
    reveal_strlit("resign");
    reveal_strlit("win");
    match m {
        Move::Normal { from, to, promote } => {
            assert(spec_usi(m) != "resign"@);
            assert(spec_usi(m) != "win"@);
        },
        Move::Drop(p, sq) => {
            assert(spec_usi(m) != "resign"@);
            assert(spec_usi(m) != "win"@);
        },
        _ => {},
    }
}

/// How a game has ended, or that it goes on.
#[derive(Debug, Clone, Copy, PartialEq, Eq, Structural)]
pub enum GameOutcome {
    Undetermined,
    DrawByMoveLimit,
    DrawByAdjudication,
    DrawByRepetition,
    WinByAdjudication(Color),
    WinByDeclaration(Color),
    LossByResignation(Color),
    LossByClock(Color),
    LossByDisconnection(Color),
    LossByIllegalMove(Color),
}

impl GameOutcome {
    /// The game has ended.
    pub open spec fn spec_is_determined(self) -> bool {
        !(self is Undetermined)
    }

    /// Whether the game has ended.
    pub fn is_determined(&self) -> (r: bool)
        ensures
            r == self.spec_is_determined(),
    {
        !matches!(self, GameOutcome::Undetermined)
    }

    /// The side that won, `None` for a draw or a game that goes on.
    pub open spec fn spec_winner(self) -> Option<Color> {
        match self {
            GameOutcome::WinByAdjudication(c) | GameOutcome::WinByDeclaration(c) => Some(c),
            GameOutcome::LossByResignation(c) | GameOutcome::LossByClock(c)
            | GameOutcome::LossByDisconnection(c) | GameOutcome::LossByIllegalMove(c) => Some(
                c.spec_flip(),
            ),
            _ => None,
        }
    }

    /// The side that won, if any.
    pub fn winner(&self) -> (r: Option<Color>)
        ensures
            r == self.spec_winner(),
    {
        match *self {
            GameOutcome::WinByAdjudication(c) | GameOutcome::WinByDeclaration(c) => Some(c),
            GameOutcome::LossByResignation(c) | GameOutcome::LossByClock(c)
            | GameOutcome::LossByDisconnection(c) | GameOutcome::LossByIllegalMove(c) => Some(
                c.flip(),
            ),
            _ => None,
        }
    }
}

} // verus!

verus! {

/// A game as the runner follows it: the opening position in USI form
/// (`startpos` or `sfen ...`), the side to move there, and the moves played.
/// The rules of shogi are the engines' to keep; the game ends here only on
/// what an engine declares (resignation, a declared win, no move at all).
#[derive(Debug, Clone)]
pub struct Game {
    pub opening: String,
    pub start: Color,
    pub moves: Vec<Move>,
}

/// The side to move in a USI position: Gote when an `sfen` position says `w`.
pub open spec fn spec_start_side(words: Seq<Seq<char>>) -> Color {
    if words.len() >= 3 && words[0] == "sfen"@ && words[2] == "w"@ {
        Color::Gote
    } else {
        Color::Sente
    }
}

/// The side to move after `n` moves from a position where `start` moves.
pub open spec fn side_after(start: Color, n: nat) -> Color {
    if n % 2 == 0 {
        start
    } else {
        start.spec_flip()
    }
}

/// The outcome of a move by `stm`: what the engine declares ends the game.
pub open spec fn spec_move_outcome(m: Move, stm: Color) -> GameOutcome {
    match m {
        Move::Resign => GameOutcome::LossByResignation(stm),
        Move::Win => GameOutcome::WinByDeclaration(stm),
        Move::Null => GameOutcome::LossByIllegalMove(stm),
        _ => GameOutcome::Undetermined,
    }
}

/// The USI texts of `moves`, each preceded by a space.
pub open spec fn moves_text(moves: Seq<Move>) -> Seq<char>
    decreases moves.len(),
{
    if moves.len() == 0 {
        Seq::empty()
    } else {
        moves_text(moves.drop_last()) + " "@ + spec_usi(moves.last())
    }
}

impl Game {
    /// A game from the USI position `opening`.
    pub fn new(opening: &str) -> (r: Game)
        ensures
            r.opening@ == opening@,
            r.start == spec_start_side(crate::text::ascii_words(opening@)),
            r.moves@.len() == 0,
    {
        let words = crate::text::split_ascii_whitespace(opening);
        let ghost w = crate::text::str_views(words@);
        let start = if words.len() >= 3 && str_eq(words[0], "sfen") && str_eq(words[2], "w") {
            assert(w[0] == words@[0]@ && w[2] == words@[2]@);
            Color::Gote
        } else {
            proof {
                if w.len() >= 3 {
                    assert(w[0] == words@[0]@ && w[2] == words@[2]@);
                }
            }
            Color::Sente
        };
        Game { opening: opening.to_owned(), start, moves: Vec::new() }
    }

    /// The side to move.
    pub fn stm(&self) -> (r: Color)
        ensures
            r == side_after(self.start, self.moves@.len()),
    {
        if self.moves.len() % 2 == 0 {
            self.start
        } else {
            self.start.flip()
        }
    }

    /// Plays `m` for the side to move; returns what it does to the game.
    pub fn do_move(&mut self, m: Move) -> (r: GameOutcome)
        ensures
            final(self).moves@ == old(self).moves@.push(m),
            final(self).opening == old(self).opening,
            final(self).start == old(self).start,
            r == spec_move_outcome(m, side_after(old(self).start, old(self).moves@.len())),
    {
        let stm = self.stm();
        self.moves.push(m);
        match m {
            Move::Resign => GameOutcome::LossByResignation(stm),
            Move::Win => GameOutcome::WinByDeclaration(stm),
            Move::Null => GameOutcome::LossByIllegalMove(stm),
            _ => GameOutcome::Undetermined,
        }
    }

    /// The position in USI form: the opening, then `moves` and the moves
    /// played, if any.
    pub fn usi_string(&self) -> (r: String)
        requires
            forall|i: int| 0 <= i < self.moves@.len() ==> move_on_board(self.moves@[i]) || self.moves@[i] is Null,
        ensures
            r@ == (if self.moves@.len() == 0 {
                self.opening@
            } else {
                self.opening@ + " moves"@ + moves_text(self.moves@)
            }),
    {
        let mut s = self.opening.clone();
        if self.moves.len() == 0 {
            return s;
        }
        push_str(&mut s, " moves");
        let mut i: usize = 0;
        assert(self.moves@.take(0) =~= Seq::<Move>::empty());
        while i < self.moves.len()
            invariant
                i <= self.moves@.len(),
                forall|k: int| 0 <= k < self.moves@.len() ==> move_on_board(self.moves@[k]) || self.moves@[k] is Null,
                s@ == self.opening@ + " moves"@ + moves_text(self.moves@.take(i as int)),
            decreases self.moves@.len() - i,
        {
            let t = self.moves[i].to_usi();
            push_str(&mut s, " ");
            push_str(&mut s, t.as_str());
            assert(self.moves@.take(i + 1).drop_last() =~= self.moves@.take(i as int));
            i = i + 1;
        }
        assert(self.moves@.take(i as int) =~= self.moves@);
        s
    }
}

} // verus!

verus! {

/// The USI position that a line of an opening book gives: the line without
/// surrounding whitespace, prefixed with `sfen ` unless it already names a
/// position (`startpos` or `sfen ...`); none for a blank line.
pub open spec fn spec_book_position(line: Seq<char>) -> Option<Seq<char>> {
    let t = crate::text::trim(line);
    if t.len() == 0 {
        None
    } else if t == "startpos"@ || crate::text::spec_starts_with(t, "sfen "@) {
        Some(t)
    } else {
        Some("sfen "@ + t)
    }
}

/// The USI position of a line of an opening book, if it holds one.
pub fn book_position(line: &str) -> (r: Option<String>)
    ensures
        match spec_book_position(line@) {
            Some(p) => r matches Some(s) && s@ == p,
            None => r is None,
        },
{
    let t = crate::text::trim_str(line);
    if t.unicode_len() == 0 {
        return None;
    }
    if str_eq(t, "startpos") || crate::text::starts_with(t, "sfen ") {
        Some(t.to_owned())
    } else {
        let mut s = String::new();
        push_str(&mut s, "sfen ");
        push_str(&mut s, t);
        Some(s)
    }
}

} // verus!

verus! {

/// An outcome that names a side as winning is won by that side, one that
/// names a side as losing is won by the other side, and only a finished game
/// has a winner.
pub proof fn lemma_named_side_wins(o: GameOutcome, c: Color)
    ensures
        GameOutcome::WinByAdjudication(c).spec_winner() == Some(c),
        GameOutcome::WinByDeclaration(c).spec_winner() == Some(c),
        GameOutcome::LossByResignation(c).spec_winner() != Some(c),
        GameOutcome::LossByClock(c).spec_winner() != Some(c),
        GameOutcome::LossByDisconnection(c).spec_winner() != Some(c),
        GameOutcome::LossByIllegalMove(c).spec_winner() != Some(c),
        GameOutcome::LossByResignation(c).spec_winner() is Some,
        GameOutcome::LossByClock(c).spec_winner() is Some,
        GameOutcome::LossByDisconnection(c).spec_winner() is Some,
        GameOutcome::LossByIllegalMove(c).spec_winner() is Some,
        GameOutcome::DrawByMoveLimit.spec_winner() is None,
        GameOutcome::DrawByAdjudication.spec_winner() is None,
        GameOutcome::DrawByRepetition.spec_winner() is None,
        o.spec_winner() is Some ==> o.spec_is_determined(),
        !o.spec_is_determined() ==> o.spec_winner() is None,
{
}

} // verus!
