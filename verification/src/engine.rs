//! What the runner reads from a USI engine: search reports, best moves, and
//! the engine's configuration.

use vstd::prelude::*;
use vstd::utf8::{decode_utf8, valid_utf8};
use crate::shogi::{Color, Move, spec_parse_move};
use crate::text::{
    ascii_lowercase, char_is_whitespace, eq_ignore_ascii_case, is_whitespace, push_str, trim, trim_start,
    trim_str,
    ascii_words, parse_i32, parse_u32, parse_u64, split_ascii_whitespace, str_eq, str_views,
    spec_parse_i32, spec_parse_unsigned,
};

verus! {

#[verifier::external_type_specification]
#[verifier::external_body]
pub struct ExIoError(std::io::Error);

/// An evaluation reported by an engine.
#[derive(Debug, Clone, Copy, PartialEq, Eq, Structural)]
pub enum Score {
    /// No score reported.
    Unset,
    /// Centipawns, from the point of view of the side to move.
    Cp(i32),
    /// Mate in the given number of plies; negative when the side to move is mated.
    Mate(i32),
}

impl Default for Score {
    fn default() -> (r: Score)
        ensures
            r == Score::Unset,
    {
        Score::Unset
    }
}

/// The outcome of waiting for an engine.
#[derive(Debug)]
pub enum EngineResult<T> {
    /// The engine answered.
    Done(T),
    /// The engine did not answer in time.
    Timeout,
    /// The engine closed its output.
    Disconnected,
    /// Reading or writing failed.
    Failed(std::io::Error),
}

/// Whether a reader of engine output wants more lines.
#[derive(Debug, Copy, Clone, PartialEq, Eq, Structural)]
pub enum ReadState {
    Continue,
    Stop,
}

/// One move of a game with what the engine reported while searching it.
/// Times are in milliseconds.
#[derive(Debug, Clone)]
pub struct MoveRecord {
    pub stm: Option<Color>,
    pub m: Move,
    pub mstr: String,
    pub ponder: Option<Move>,
    pub score: Score,
    pub depth: u32,
    pub seldepth: u32,
    pub nodes: u64,
    pub nps: u64,
    pub engine_time: u64,
    pub hashfull: u32,
    pub measured_time: u64,
    pub time_left: Option<u64>,
}

impl Default for MoveRecord {
    fn default() -> (r: MoveRecord)
        ensures
            r.stm is None,
            r.m == Move::Null,
            r.mstr@.len() == 0,
            r.ponder is None,
            r.info() == (SearchInfo {
                score: Score::Unset,
                depth: 0,
                seldepth: 0,
                nodes: 0,
                nps: 0,
                engine_time: 0,
                hashfull: 0,
            }),
            r.measured_time == 0,
            r.time_left is None,
    {
        MoveRecord {
            stm: None,
            m: Move::Null,
            mstr: String::new(),
            ponder: None,
            score: Score::Unset,
            depth: 0,
            seldepth: 0,
            nodes: 0,
            nps: 0,
            engine_time: 0,
            hashfull: 0,
            measured_time: 0,
            time_left: None,
        }
    }
}

/// The fields of a move record that `info` lines report.
#[derive(Debug, Clone, Copy, PartialEq, Eq, Structural)]
pub struct SearchInfo {
    pub score: Score,
    pub depth: u32,
    pub seldepth: u32,
    pub nodes: u64,
    pub nps: u64,
    pub engine_time: u64,
    pub hashfull: u32,
}

impl MoveRecord {
    /// The search report held by this record.
    pub open spec fn info(&self) -> SearchInfo {
        SearchInfo {
            score: self.score,
            depth: self.depth,
            seldepth: self.seldepth,
            nodes: self.nodes,
            nps: self.nps,
            engine_time: self.engine_time,
            hashfull: self.hashfull,
        }
    }
}

/// `v` read as a `u32`, or `old` when it is not one.
pub open spec fn u32_or(v: Seq<char>, old: u32) -> u32 {
    match spec_parse_unsigned(v, u32::MAX as nat) {
        Some(x) => x as u32,
        None => old,
    }
}

/// `v` read as a `u64`, or `old` when it is not one.
pub open spec fn u64_or(v: Seq<char>, old: u64) -> u64 {
    match spec_parse_unsigned(v, u64::MAX as nat) {
        Some(x) => x as u64,
        None => old,
    }
}

/// What the words `t` that follow `info` make of the search report `f`: each
/// keyword takes the next word as its value where it reads as one, `score`
/// takes `cp` or `mate` and a value, other words are skipped, and `string`
/// ends the report.
pub open spec fn info_update(t: Seq<Seq<char>>, f: SearchInfo) -> SearchInfo
    decreases t.len(),
{
    if t.len() == 0 || t[0] == "string"@ {
        f
    } else if t[0] == "depth"@ || t[0] == "seldepth"@ || t[0] == "nodes"@ || t[0] == "nps"@
        || t[0] == "time"@ || t[0] == "hashfull"@ {
        if t.len() < 2 {
            f
        } else {
            let v = t[1];
            let g = if t[0] == "depth"@ {
                SearchInfo { depth: u32_or(v, f.depth), ..f }
            } else if t[0] == "seldepth"@ {
                SearchInfo { seldepth: u32_or(v, f.seldepth), ..f }
            } else if t[0] == "nodes"@ {
                SearchInfo { nodes: u64_or(v, f.nodes), ..f }
            } else if t[0] == "nps"@ {
                SearchInfo { nps: u64_or(v, f.nps), ..f }
            } else if t[0] == "time"@ {
                SearchInfo { engine_time: u64_or(v, f.engine_time), ..f }
            } else {
                SearchInfo { hashfull: u32_or(v, f.hashfull), ..f }
            };
            info_update(t.skip(2), g)
        }
    } else if t[0] == "score"@ {
        if t.len() < 2 {
            f
        } else if t[1] == "cp"@ || t[1] == "mate"@ {
            if t.len() < 3 {
                f
            } else {
                let g = match spec_parse_i32(t[2]) {
                    Some(x) => if t[1] == "cp"@ {
                        SearchInfo { score: Score::Cp(x as i32), ..f }
                    } else {
                        SearchInfo { score: Score::Mate(x as i32), ..f }
                    },
                    None => f,
                };
                info_update(t.skip(3), g)
            }
        } else {
            info_update(t.skip(2), f)
        }
    } else {
        info_update(t.skip(1), f)
    }
}

/// The ponder move that the words `t` after a best move name: the word after
/// the first `ponder`, kept only if it reads as a board move or a drop;
/// `current` if no `ponder` occurs.
pub open spec fn ponder_update(t: Seq<Seq<char>>, current: Option<Move>) -> Option<Move>
    decreases t.len(),
{
    if t.len() == 0 {
        current
    } else if t[0] == "ponder"@ {
        if t.len() < 2 {
            None
        } else {
            match spec_parse_move(t[1]) {
                Some(m) => if m.is_board_move() {
                    Some(m)
                } else {
                    None
                },
                None => None,
            }
        }
    } else {
        ponder_update(t.skip(1), current)
    }
}

/// The best move text of a `bestmove` line's words: the second word, or empty.
pub open spec fn bestmove_text(t: Seq<Seq<char>>) -> Seq<char> {
    if t.len() >= 2 {
        t[1]
    } else {
        Seq::empty()
    }
}

/// The fields that a record keeps whatever a line of search output says.
pub open spec fn same_identity(a: &MoveRecord, b: &MoveRecord) -> bool {
    &&& a.stm == b.stm
    &&& a.measured_time == b.measured_time
    &&& a.time_left == b.time_left
}

fn read_u32_or(v: &str, old: u32) -> (r: u32)
    ensures
        r == u32_or(v@, old),
{
    match parse_u32(v) {
        Some(x) => x,
        None => old,
    }
}

fn read_u64_or(v: &str, old: u64) -> (r: u64)
    ensures
        r == u64_or(v@, old),
{
    match parse_u64(v) {
        Some(x) => x,
        None => old,
    }
}

/// Applies the words `t[from..]` of an `info` line to the record.
fn apply_info_words(t: &Vec<&str>, from: usize, mr: &mut MoveRecord)
    requires
        from <= t@.len(),
    ensures
        final(mr).info() == info_update(str_views(t@).skip(from as int), old(mr).info()),
        final(mr).m == old(mr).m,
        final(mr).mstr == old(mr).mstr,
        final(mr).ponder == old(mr).ponder,
        same_identity(&*final(mr), &*old(mr)),
{
    let n = t.len();
    let mut i = from;
    let mut stop = false;
    let ghost words = str_views(t@);
    while i < n && !stop
        invariant
            n == t@.len(),
            from <= i <= n,
            words == str_views(t@),
            info_update(words.skip(from as int), old(mr).info()) == (if !stop {
                info_update(words.skip(i as int), mr.info())
            } else {
                mr.info()
            }),
            mr.m == old(mr).m,
            mr.mstr == old(mr).mstr,
            mr.ponder == old(mr).ponder,
            same_identity(&*mr, &*old(mr)),
        decreases n - i, if stop { 0int } else { 1int },
    {
        let tok = t[i];
        let ghost rest = words.skip(i as int);
        assert(rest[0] == tok@);
        assert(rest.skip(1) =~= words.skip(i + 1));
        if str_eq(tok, "string") {
            stop = true;
        } else if str_eq(tok, "depth") || str_eq(tok, "seldepth") || str_eq(tok, "nodes") || str_eq(
            tok,
            "nps",
        ) || str_eq(tok, "time") || str_eq(tok, "hashfull") {
            if i + 1 < n {
                let v = t[i + 1];
                assert(rest[1] == v@);
                assert(rest.skip(2) =~= words.skip(i + 2));
                if str_eq(tok, "depth") {
                    mr.depth = read_u32_or(v, mr.depth);
                } else if str_eq(tok, "seldepth") {
                    mr.seldepth = read_u32_or(v, mr.seldepth);
                } else if str_eq(tok, "nodes") {
                    mr.nodes = read_u64_or(v, mr.nodes);
                } else if str_eq(tok, "nps") {
                    mr.nps = read_u64_or(v, mr.nps);
                } else if str_eq(tok, "time") {
                    mr.engine_time = read_u64_or(v, mr.engine_time);
                } else {
                    mr.hashfull = read_u32_or(v, mr.hashfull);
                }
                i = i + 2;
            } else {
                stop = true;
            }
        } else if str_eq(tok, "score") {
            if i + 1 < n {
                let kind = t[i + 1];
                assert(rest[1] == kind@);
                if str_eq(kind, "cp") || str_eq(kind, "mate") {
                    if i + 2 < n {
                        let v = t[i + 2];
                        assert(rest[2] == v@);
                        assert(rest.skip(3) =~= words.skip(i + 3));
                        match parse_i32(v) {
                            Some(x) => {
                                if str_eq(kind, "cp") {
                                    mr.score = Score::Cp(x);
                                } else {
                                    mr.score = Score::Mate(x);
                                }
                            },
                            None => {},
                        }
                        i = i + 3;
                    } else {
                        stop = true;
                    }
                } else {
                    assert(rest.skip(2) =~= words.skip(i + 2));
                    i = i + 2;
                }
            } else {
                stop = true;
            }
        } else {
            i = i + 1;
        }
    }
    if !stop {
        assert(words.skip(n as int).len() == 0);
    }
}

/// Finds the ponder move among the words `t[from..]` of a `bestmove` line.
fn find_ponder(t: &Vec<&str>, from: usize, current: Option<Move>) -> (r: Option<Move>)
    requires
        from <= t@.len(),
    ensures
        r == ponder_update(str_views(t@).skip(from as int), current),
{
    let n = t.len();
    let mut i = from;
    let ghost words = str_views(t@);
    while i < n
        invariant
            n == t@.len(),
            from <= i <= n,
            words == str_views(t@),
            ponder_update(words.skip(from as int), current) == ponder_update(
                words.skip(i as int),
                current,
            ),
        decreases n - i,
    {
        let tok = t[i];
        let ghost rest = words.skip(i as int);
        assert(rest[0] == tok@);
        if str_eq(tok, "ponder") {
            if i + 1 < n {
                assert(rest[1] == t[i + 1]@);
                return match Move::parse(t[i + 1]) {
                    Some(m) => if matches!(m, Move::Normal { .. } | Move::Drop(_, _)) {
                        Some(m)
                    } else {
                        None
                    },
                    None => None,
                };
            } else {
                return None;
            }
        }
        assert(rest.skip(1) =~= words.skip(i + 1));
        i = i + 1;
    }
    assert(words.skip(n as int).len() == 0);
    current
}

/// Reads one line of search output into `mr`: an `info` line updates the
/// search report and asks for more lines; a `bestmove` line sets the move, its
/// text and the ponder move and stops reading; any other line changes nothing.
pub fn parse_search_output_line(line: &str, mr: &mut MoveRecord) -> (r: ReadState)
    ensures
        ({
            let t = ascii_words(line@);
            if t.len() > 0 && t[0] == "info"@ {
                &&& r == ReadState::Continue
                &&& final(mr).info() == info_update(t.skip(1), old(mr).info())
                &&& final(mr).m == old(mr).m
                &&& final(mr).mstr == old(mr).mstr
                &&& final(mr).ponder == old(mr).ponder
            } else if t.len() > 0 && t[0] == "bestmove"@ {
                &&& r == ReadState::Stop
                &&& final(mr).info() == old(mr).info()
                &&& final(mr).mstr@ == bestmove_text(t)
                &&& final(mr).m == (match spec_parse_move(bestmove_text(t)) {
                    Some(m) => m,
                    None => old(mr).m,
                })
                &&& final(mr).ponder == ponder_update(
                    t.skip(if t.len() >= 2 { 2int } else { 1int }),
                    old(mr).ponder,
                )
            } else {
                &&& r == ReadState::Continue
                &&& *final(mr) == *old(mr)
            }
        }),
        same_identity(&*final(mr), &*old(mr)),
{
    let t = split_ascii_whitespace(line);
    let ghost words = str_views(t@);
    if t.len() > 0 && str_eq(t[0], "info") {
        apply_info_words(&t, 1, mr);
        ReadState::Continue
    } else if t.len() > 0 && str_eq(t[0], "bestmove") {
        let mstr: &str = if t.len() >= 2 {
            t[1]
        } else {
            ""
        };
        proof {
            reveal_strlit("");
        }
        assert(mstr@ == bestmove_text(words));
        mr.mstr = mstr.to_owned();
        match Move::parse(mstr) {
            Some(m) => {
                mr.m = m;
            },
            None => {},
        }
        let from: usize = if t.len() >= 2 {
            2
        } else {
            1
        };
        let p = find_ponder(&t, from, mr.ponder);
        mr.ponder = p;
        ReadState::Stop
    } else {
        ReadState::Continue
    }
}

} // verus!

verus! {

/// How to start an engine: its directory, command, an optional fixed name,
/// and the USI options to set, in order.
#[derive(Debug, Clone, PartialEq, Eq)]
pub struct EngineBuilder {
    pub dir: String,
    pub cmd: String,
    pub name: Option<String>,
    pub usi_options: Vec<(String, String)>,
}

impl Default for EngineBuilder {
    fn default() -> (r: EngineBuilder)
        ensures
            r.dir@.len() == 0,
            r.cmd@.len() == 0,
            r.name is None,
            r.usi_options@.len() == 0,
    {
        EngineBuilder { dir: String::new(), cmd: String::new(), name: None, usi_options: Vec::new() }
    }
}

/// The value of the last option named `key` in `opts`.
pub open spec fn last_option_value(opts: Seq<(String, String)>, key: Seq<char>) -> Option<Seq<char>>
    decreases opts.len(),
{
    if opts.len() == 0 {
        None
    } else if opts.last().0@ == key {
        Some(opts.last().1@)
    } else {
        last_option_value(opts.drop_last(), key)
    }
}

impl EngineBuilder {
    /// The value of the last USI option named `key`, if any is set.
    pub fn get_usi_option_value(&self, key: &str) -> (r: Option<&str>)
        ensures
            match r {
                Some(v) => last_option_value(self.usi_options@, key@) == Some(v@),
                None => last_option_value(self.usi_options@, key@) is None,
            },
    {
        let mut i = self.usi_options.len();
        assert(self.usi_options@.take(i as int) =~= self.usi_options@);
        while i > 0
            invariant
                i <= self.usi_options@.len(),
                last_option_value(self.usi_options@, key@) == last_option_value(
                    self.usi_options@.take(i as int),
                    key@,
                ),
            decreases i,
        {
            let entry = &self.usi_options[i - 1];
            let ghost pre = self.usi_options@.take(i as int);
            assert(pre.last() == *entry);
            assert(pre.drop_last() =~= self.usi_options@.take(i - 1));
            if str_eq(entry.0.as_str(), key) {
                return Some(entry.1.as_str());
            }
            i = i - 1;
        }
        assert(self.usi_options@.take(0).len() == 0);
        None
    }
}

} // verus!

verus! {

/// Length of the run of non-whitespace characters that `s` starts with.
pub open spec fn word_len(s: Seq<char>) -> nat
    decreases s.len(),
{
    if s.len() == 0 || is_whitespace(s[0]) {
        0
    } else {
        1 + word_len(s.drop_first())
    }
}

/// The first whitespace-separated word of `s` and the text after it
/// (which starts with the whitespace that ends the word, if any).
pub open spec fn first_word(s: Seq<char>) -> (Seq<char>, Seq<char>) {
    let a = trim_start(s);
    (a.take(word_len(a) as int), a.skip(word_len(a) as int))
}

/// What a line of the `usi` handshake tells: `usiok` ends the handshake, and
/// `id name <name>` gives the engine's name, taken from the text after the
/// whitespace that follows `name`, trimmed.
pub open spec fn handshake_name(line: Seq<char>, current: Option<Seq<char>>) -> Option<Seq<char>> {
    let (w1, rest1) = first_word(line);
    let (w2, rest2) = first_word(rest1);
    if w1 == "id"@ && w2 == "name"@ && rest2.len() > 0 {
        Some(trim(rest2.drop_first()))
    } else {
        current
    }
}

/// Reading position of the first word in `s` from `start`: skips whitespace,
/// then the word; returns the word's bounds.
fn next_word(s: &str, start: usize) -> (r: (usize, usize))
    requires
        start <= s@.len(),
    ensures
        start <= r.0 <= r.1 <= s@.len(),
        s@.subrange(r.0 as int, r.1 as int) == first_word(s@.skip(start as int)).0,
        s@.skip(r.1 as int) == first_word(s@.skip(start as int)).1,
{
    let len = s.unicode_len();
    let mut lo = start;
    let ghost u = s@.skip(start as int);
    while lo < len && char_is_whitespace(s.get_char(lo))
        invariant
            len == s@.len(),
            start <= lo <= len,
            u == s@.skip(start as int),
            trim_start(u) == trim_start(s@.skip(lo as int)),
        decreases len - lo,
    {
        assert(s@.skip(lo as int).drop_first() =~= s@.skip(lo + 1));
        lo = lo + 1;
    }
    let ghost a = s@.skip(lo as int);
    assert(trim_start(a) == a);
    let mut hi = lo;
    assert(a.take(0) =~= s@.subrange(lo as int, lo as int));
    while hi < len && !char_is_whitespace(s.get_char(hi))
        invariant
            len == s@.len(),
            lo <= hi <= len,
            a == s@.skip(lo as int),
            word_len(a) == (hi - lo) + word_len(s@.skip(hi as int)),
        decreases len - hi,
    {
        assert(s@.skip(hi as int).drop_first() =~= s@.skip(hi + 1));
        hi = hi + 1;
    }
    assert(word_len(s@.skip(hi as int)) == 0);
    assert(a.take(hi - lo) =~= s@.subrange(lo as int, hi as int));
    assert(a.skip(hi - lo) =~= s@.skip(hi as int));
    (lo, hi)
}

/// Reads one line of the `usi` handshake: stops at `usiok`, and records the
/// name that an `id name` line gives.
pub fn read_handshake_line(line: &str, usi_name: &mut Option<String>) -> (r: ReadState)
    ensures
        r == (if first_word(line@).0 == "usiok"@ {
            ReadState::Stop
        } else {
            ReadState::Continue
        }),
        match *final(usi_name) {
            Some(n) => handshake_name(line@, match *old(usi_name) {
                Some(o) => Some(o@),
                None => None,
            }) == Some(n@),
            None => handshake_name(line@, None) is None && *old(usi_name) is None,
        },
{
    assert(line@.skip(0) =~= line@);
    let (a1, b1) = next_word(line, 0);
    let w1 = line.substring_char(a1, b1);
    if str_eq(w1, "usiok") {
        proof {
            reveal_strlit("usiok");
            reveal_strlit("id");
            assert("usiok"@.len() != "id"@.len());
        }
        return ReadState::Stop;
    }
    if str_eq(w1, "id") {
        let (a2, b2) = next_word(line, b1);
        let w2 = line.substring_char(a2, b2);
        let len = line.unicode_len();
        if str_eq(w2, "name") && b2 < len {
            let rest = line.substring_char(b2 + 1, len);
            assert(rest@ =~= line@.skip(b2 as int).drop_first());
            let name = trim_str(rest);
            *usi_name = Some(name.to_owned());
        }
    }
    ReadState::Continue
}

/// Whether a line answers `isready`: `readyok` in any ASCII case, with
/// surrounding whitespace.
pub fn is_readyok_line(line: &str) -> (r: bool)
    ensures
        r == (ascii_lowercase(trim(line@)) == ascii_lowercase("readyok"@)),
{
    eq_ignore_ascii_case(trim_str(line), "readyok")
}

/// The command that sets USI option `k` to `v`.
pub fn setoption_command(k: &str, v: &str) -> (r: String)
    ensures
        r@ == "setoption name "@ + k@ + " value "@ + v@,
{
    let mut s = String::new();
    push_str(&mut s, "setoption name ");
    push_str(&mut s, k);
    push_str(&mut s, " value ");
    push_str(&mut s, v);
    assert(s@ =~= "setoption name "@ + k@ + " value "@ + v@);
    s
}

/// The name an engine goes by: the builder's fixed name if it has one, else
/// the name the engine gave in the handshake, else its command.
pub fn engine_display_name(builder: &EngineBuilder, usi_name: Option<String>) -> (r: String)
    ensures
        r@ == (match builder.name {
            Some(n) => n@,
            None => match usi_name {
                Some(u) => u@,
                None => builder.cmd@,
            },
        }),
{
    match &builder.name {
        Some(n) => n.clone(),
        None => match usi_name {
            Some(u) => u,
            None => builder.cmd.clone(),
        },
    }
}

/// The first position of `needle` in `haystack` (`memchr::memchr`).
#[verifier::external_body]
fn find_byte(needle: u8, haystack: &[u8]) -> (r: Option<usize>)
    ensures
        match r {
            Some(i) => i < haystack@.len() && haystack@[i as int] == needle && forall|j: int|
                0 <= j < i ==> haystack@[j] != needle,
            None => forall|j: int| 0 <= j < haystack@.len() ==> haystack@[j] != needle,
        },
{
    memchr::memchr(needle, haystack)
}

/// Decodes UTF-8 text (`std::str::from_utf8`), `None` when it is not valid.
#[verifier::external_body]
fn decode_utf8_string(bytes: &[u8]) -> (r: Option<String>)
    ensures
        r is Some <==> valid_utf8(bytes@),
        r matches Some(s) ==> s@ == decode_utf8(bytes@),
{
    match std::str::from_utf8(bytes) {
        Ok(s) => Some(s.to_string()),
        Err(_) => None,
    }
}

/// The first line of `buf`, up to and including its first newline.
pub open spec fn first_line_end(buf: Seq<u8>) -> Option<int> {
    if exists|i: int| 0 <= i < buf.len() && buf[i] == 10u8 && forall|j: int|
        0 <= j < i ==> buf[j] != 10u8 {
        Some(
            choose|i: int|
                0 <= i < buf.len() && buf[i] == 10u8 && forall|j: int| 0 <= j < i ==> buf[j] != 10u8,
        )
    } else {
        None
    }
}

/// Takes the first complete line (with its newline) out of the read buffer:
/// `None` when the buffer holds no newline, `Some(None)` when the line is not
/// valid UTF-8 (the line is removed all the same).
pub fn take_line(buf: &mut Vec<u8>) -> (r: Option<Option<String>>)
    ensures
        match first_line_end(old(buf)@) {
            None => r is None && final(buf)@ == old(buf)@,
            Some(i) => {
                &&& final(buf)@ == old(buf)@.skip(i + 1)
                &&& r is Some
                &&& (r->0 is Some <==> valid_utf8(old(buf)@.take(i + 1)))
                &&& (r->0 matches Some(s) ==> s@ == decode_utf8(old(buf)@.take(i + 1)))
            },
        },
{
    match find_byte(10u8, buf.as_slice()) {
        None => {
            assert(first_line_end(buf@) is None);
            None
        },
        Some(i) => {
            let n = buf.len();
            assert(i < n);
            proof {
                let k = choose|k: int|
                    0 <= k < buf@.len() && buf@[k] == 10u8 && forall|j: int|
                        0 <= j < k ==> buf@[j] != 10u8;
                if k < i {
                    assert(buf@[k] != 10u8);
                } else if i < k {
                    assert(buf@[i as int] != 10u8);
                }
            }
            let mut line = buf.split_off(i + 1);
            std::mem::swap(buf, &mut line);
            assert(buf@ =~= old(buf)@.skip(i + 1));
            assert(line@ =~= old(buf)@.take(i + 1));
            Some(decode_utf8_string(line.as_slice()))
        },
    }
}

} // verus!
