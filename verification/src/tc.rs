//! Time controls as given on the command line. Durations are in milliseconds.

use vstd::prelude::*;
use crate::shogi::Color;
use crate::text::{
    decimal_chars, push_char, push_decimal, push_str,
    parse_digits, parse_u64, split_once, spec_digits_value, spec_parse_unsigned, spec_split_once,
    spec_starts_with, strip_prefix,
};

verus! {

/// How an engine's thinking time is limited.
#[derive(Debug, Clone, Copy, PartialEq, Eq, Structural)]
pub enum TimeControl {
    /// No limit given.
    Unlimited,
    /// A base time and an increment added after each move.
    Fischer { base: u64, increment: u64 },
    /// A base time, then a fixed time per move once it is spent.
    Byoyomi { base: u64, byoyomi: u64 },
    /// A fixed time per move.
    MoveTime(u64),
    /// A fixed number of nodes per move.
    Nodes(u64),
}

impl Default for TimeControl {
    fn default() -> (r: TimeControl)
        ensures
            r == TimeControl::Unlimited,
    {
        TimeControl::Unlimited
    }
}

/// `10` to the power `k`.
pub open spec fn pow10(k: nat) -> nat
    decreases k,
{
    if k == 0 {
        1
    } else {
        10 * pow10((k - 1) as nat)
    }
}

/// Milliseconds written as decimal seconds: digits, optionally followed by a
/// point and one to three digits.
pub open spec fn spec_seconds_ms(s: Seq<char>) -> Option<nat> {
    let v = match spec_split_once(s, '.') {
        None => match spec_digits_value(s, u64::MAX as nat) {
            Some(i) => Some(i * 1000),
            None => None,
        },
        Some((ip, fp)) => if 1 <= fp.len() <= 3 {
            match (spec_digits_value(ip, u64::MAX as nat), spec_digits_value(fp, 999)) {
                (Some(i), Some(f)) => Some(i * 1000 + f * pow10((3 - fp.len()) as nat)),
                _ => None,
            }
        } else {
            None
        },
    };
    match v {
        Some(ms) => if ms <= u64::MAX {
            Some(ms)
        } else {
            None
        },
        None => None,
    }
}

/// Milliseconds written as `MIN:SEC` or as decimal seconds.
pub open spec fn spec_base_ms(s: Seq<char>) -> Option<nat> {
    match spec_split_once(s, ':') {
        Some((mp, sp)) => match (spec_digits_value(mp, u64::MAX as nat), spec_seconds_ms(sp)) {
            (Some(m), Some(sec)) => if m * 60000 + sec <= u64::MAX {
                Some(m * 60000 + sec)
            } else {
                None
            },
            _ => None,
        },
        None => spec_seconds_ms(s),
    }
}

/// The time control written `N=NODES`, `movetime=SEC`, `BASE+INC`,
/// `BASE,BYOYOMI` or `BASE`, where `BASE` is `MIN:SEC` or `SEC` and times are
/// decimal seconds.
pub open spec fn spec_parse_tc(s: Seq<char>) -> Option<TimeControl> {
    if spec_starts_with(s, "N="@) {
        match spec_parse_unsigned(s.skip(2), u64::MAX as nat) {
            Some(n) => Some(TimeControl::Nodes(n as u64)),
            None => None,
        }
    } else if spec_starts_with(s, "movetime="@) {
        match spec_seconds_ms(s.skip(9)) {
            Some(t) => Some(TimeControl::MoveTime(t as u64)),
            None => None,
        }
    } else {
        match spec_split_once(s, '+') {
            Some((bp, ip)) => match (spec_base_ms(bp), spec_seconds_ms(ip)) {
                (Some(b), Some(i)) => Some(TimeControl::Fischer { base: b as u64, increment: i as u64 }),
                _ => None,
            },
            None => match spec_split_once(s, ',') {
                Some((bp, yp)) => match (spec_base_ms(bp), spec_seconds_ms(yp)) {
                    (Some(b), Some(y)) => Some(TimeControl::Byoyomi { base: b as u64, byoyomi: y as u64 }),
                    _ => None,
                },
                None => match spec_base_ms(s) {
                    Some(b) => Some(TimeControl::Fischer { base: b as u64, increment: 0 }),
                    None => None,
                },
            },
        }
    }
}

/// Reads decimal seconds as milliseconds.
pub fn parse_seconds_ms(s: &str) -> (r: Option<u64>)
    ensures
        r == (match spec_seconds_ms(s@) {
            Some(v) => Some(v as u64),
            None => None::<u64>,
        }),
{
    match split_once(s, '.') {
        None => match parse_digits(s, u64::MAX) {
            Some(i) => {
                let v: u128 = i as u128 * 1000;
                if v <= u64::MAX as u128 {
                    Some(v as u64)
                } else {
                    None
                }
            },
            None => None,
        },
        Some((ip, fp)) => {
            let flen = fp.unicode_len();
            if 1 <= flen && flen <= 3 {
                match (parse_digits(ip, u64::MAX), parse_digits(fp, 999)) {
                    (Some(i), Some(f)) => {
                        let scale: u128 = if flen == 1 {
                            100
                        } else if flen == 2 {
                            10
                        } else {
                            1
                        };
                        assert(pow10(0) == 1);
                        assert(pow10(1) == 10);
                        assert(pow10(2) == 100);
                        let v: u128 = i as u128 * 1000 + f as u128 * scale;
                        if v <= u64::MAX as u128 {
                            Some(v as u64)
                        } else {
                            None
                        }
                    },
                    _ => None,
                }
            } else {
                None
            }
        },
    }
}

/// Reads `MIN:SEC` or decimal seconds as milliseconds.
pub fn parse_base_ms(s: &str) -> (r: Option<u64>)
    ensures
        r == (match spec_base_ms(s@) {
            Some(v) => Some(v as u64),
            None => None::<u64>,
        }),
{
    match split_once(s, ':') {
        Some((mp, sp)) => match (parse_digits(mp, u64::MAX), parse_seconds_ms(sp)) {
            (Some(m), Some(sec)) => {
                let v: u128 = m as u128 * 60000 + sec as u128;
                if v <= u64::MAX as u128 {
                    Some(v as u64)
                } else {
                    None
                }
            },
            _ => None,
        },
        None => parse_seconds_ms(s),
    }
}

impl TimeControl {
    /// Reads a time control as the `tc` engine option gives it.
    pub fn parse(s: &str) -> (r: Option<TimeControl>)
        ensures
            r == spec_parse_tc(s@),
    {
        proof {
            reveal_strlit("N=");
            reveal_strlit("movetime=");
        }
        if let Some(rest) = strip_prefix(s, "N=") {
            return match parse_u64(rest) {
                Some(n) => Some(TimeControl::Nodes(n)),
                None => None,
            };
        }
        if let Some(rest) = strip_prefix(s, "movetime=") {
            return match parse_seconds_ms(rest) {
                Some(t) => Some(TimeControl::MoveTime(t)),
                None => None,
            };
        }
        match split_once(s, '+') {
            Some((bp, ip)) => match (parse_base_ms(bp), parse_seconds_ms(ip)) {
                (Some(b), Some(i)) => Some(TimeControl::Fischer { base: b, increment: i }),
                _ => None,
            },
            None => match split_once(s, ',') {
                Some((bp, yp)) => match (parse_base_ms(bp), parse_seconds_ms(yp)) {
                    (Some(b), Some(y)) => Some(TimeControl::Byoyomi { base: b, byoyomi: y }),
                    _ => None,
                },
                None => match parse_base_ms(s) {
                    Some(b) => Some(TimeControl::Fischer { base: b, increment: 0 }),
                    None => None,
                },
            },
        }
    }
}

} // verus!

verus! {

/// Whether a move was made in time.
#[derive(Debug, Clone, Copy, PartialEq, Eq, Structural)]
pub enum StepResult {
    InTime,
    TimeElapsed,
}

/// An engine's clock during a game: its time control, the grace margin, and
/// the time left on a Fischer or byoyomi clock (all in milliseconds).
#[derive(Debug, Clone, Copy, PartialEq, Eq, Structural)]
pub struct EngineTime {
    pub time_control: TimeControl,
    pub margin: u64,
    pub remaining: u64,
}

/// `a + b`, or `u64::MAX` when that does not fit.
pub open spec fn sat_add(a: u64, b: u64) -> u64 {
    if a + b > u64::MAX {
        u64::MAX
    } else {
        (a + b) as u64
    }
}

/// The longest an engine may take for a move before it loses on time.
pub open spec fn spec_bestmove_timeout(t: EngineTime) -> Option<u64> {
    match t.time_control {
        TimeControl::Fischer { .. } => Some(sat_add(t.remaining, t.margin)),
        TimeControl::Byoyomi { byoyomi, .. } => Some(sat_add(sat_add(t.remaining, byoyomi), t.margin)),
        TimeControl::MoveTime(m) => Some(sat_add(m, t.margin)),
        _ => None,
    }
}

/// The clock after a move that took `elapsed` milliseconds, and whether the
/// move was in time: over the limit loses (and empties a clock); otherwise
/// the time is taken from the clock and a Fischer increment added.
pub open spec fn spec_step(t: EngineTime, elapsed: u64) -> (EngineTime, StepResult) {
    match spec_bestmove_timeout(t) {
        None => (t, StepResult::InTime),
        Some(limit) => if elapsed > limit {
            (EngineTime { remaining: 0, ..t }, StepResult::TimeElapsed)
        } else {
            let left = if elapsed > t.remaining {
                0
            } else {
                (t.remaining - elapsed) as u64
            };
            let remaining = match t.time_control {
                TimeControl::Fischer { increment, .. } => sat_add(left, increment),
                TimeControl::Byoyomi { .. } => left,
                _ => t.remaining,
            };
            (EngineTime { remaining, ..t }, StepResult::InTime)
        },
    }
}

fn saturating(a: u64, b: u64) -> (r: u64)
    ensures
        r == sat_add(a, b),
{
    if a > u64::MAX - b {
        u64::MAX
    } else {
        a + b
    }
}

impl EngineTime {
    /// A full clock for `time_control`, with `margin` milliseconds of grace.
    pub fn new(time_control: TimeControl, margin: u64) -> (r: EngineTime)
        ensures
            r.time_control == time_control,
            r.margin == margin,
            r.remaining == (match time_control {
                TimeControl::Fischer { base, .. } => base,
                TimeControl::Byoyomi { base, .. } => base,
                _ => 0,
            }),
    {
        let remaining = match time_control {
            TimeControl::Fischer { base, .. } => base,
            TimeControl::Byoyomi { base, .. } => base,
            _ => 0,
        };
        EngineTime { time_control, margin, remaining }
    }

    /// The longest the engine may take for its next move.
    pub fn bestmove_timeout(&self) -> (r: Option<u64>)
        ensures
            r == spec_bestmove_timeout(*self),
    {
        match self.time_control {
            TimeControl::Fischer { .. } => Some(saturating(self.remaining, self.margin)),
            TimeControl::Byoyomi { byoyomi, .. } => Some(
                saturating(saturating(self.remaining, byoyomi), self.margin),
            ),
            TimeControl::MoveTime(m) => Some(saturating(m, self.margin)),
            _ => None,
        }
    }

    /// Charges a move that took `elapsed` milliseconds to the clock.
    pub fn step(&mut self, elapsed: u64) -> (r: StepResult)
        ensures
            (*final(self), r) == spec_step(*old(self), elapsed),
    {
        match self.bestmove_timeout() {
            None => StepResult::InTime,
            Some(limit) => {
                if elapsed > limit {
                    self.remaining = 0;
                    return StepResult::TimeElapsed;
                }
                let left = if elapsed > self.remaining {
                    0
                } else {
                    self.remaining - elapsed
                };
                match self.time_control {
                    TimeControl::Fischer { increment, .. } => {
                        self.remaining = saturating(left, increment);
                    },
                    TimeControl::Byoyomi { .. } => {
                        self.remaining = left;
                    },
                    _ => {},
                }
                StepResult::InTime
            },
        }
    }

    /// The time left on a Fischer or byoyomi clock.
    pub fn remaining(&self) -> (r: Option<u64>)
        ensures
            r == (match self.time_control {
                TimeControl::Fischer { .. } | TimeControl::Byoyomi { .. } => Some(self.remaining),
                _ => None::<u64>,
            }),
    {
        match self.time_control {
            TimeControl::Fischer { .. } | TimeControl::Byoyomi { .. } => Some(self.remaining),
            _ => None,
        }
    }
}

} // verus!

verus! {

/// The increment of a Fischer clock, zero for any other.
pub open spec fn increment_of(t: EngineTime) -> u64 {
    match t.time_control {
        TimeControl::Fischer { increment, .. } => increment,
        _ => 0,
    }
}

/// The arguments of `go` for the side to move `stm`, with the clocks of
/// Sente and Gote: the mover's time control decides the form; Fischer and
/// byoyomi times name the mover's clock first (`b` for Sente, `w` for Gote).
pub open spec fn spec_usi_time(stm: Color, sente: EngineTime, gote: EngineTime) -> Seq<char> {
    let (me, opp, mc, oc) = match stm {
        Color::Sente => ('b', 'w', sente, gote),
        Color::Gote => ('w', 'b', gote, sente),
    };
    match mc.time_control {
        TimeControl::Fischer { .. } => seq![me] + "time "@ + decimal_chars(mc.remaining as nat) + " "@
            + seq![me] + "inc "@ + decimal_chars(increment_of(mc) as nat) + " "@ + seq![opp]
            + "time "@ + decimal_chars(oc.remaining as nat) + " "@ + seq![opp] + "inc "@
            + decimal_chars(increment_of(oc) as nat),
        TimeControl::Byoyomi { byoyomi, .. } => seq![me] + "time "@ + decimal_chars(
            mc.remaining as nat,
        ) + " "@ + seq![opp] + "time "@ + decimal_chars(oc.remaining as nat) + " byoyomi "@
            + decimal_chars(byoyomi as nat),
        TimeControl::MoveTime(t) => "movetime "@ + decimal_chars(t as nat),
        TimeControl::Nodes(n) => "nodes "@ + decimal_chars(n as nat),
        TimeControl::Unlimited => "infinite"@,
    }
}

/// The arguments of `go` (and of a clocked `ponderhit`) for the side to move.
pub fn to_usi_string(stm: Color, sente: &EngineTime, gote: &EngineTime) -> (r: String)
    ensures
        r@ == spec_usi_time(stm, *sente, *gote),
{
    let (me, opp, mc, oc) = match stm {
        Color::Sente => ('b', 'w', sente, gote),
        Color::Gote => ('w', 'b', gote, sente),
    };
    let mut s = String::new();
    match mc.time_control {
        TimeControl::Fischer { increment, .. } => {
            let oi = match oc.time_control {
                TimeControl::Fischer { increment, .. } => increment,
                _ => 0,
            };
            push_char(&mut s, me);
            push_str(&mut s, "time ");
            push_decimal(&mut s, mc.remaining);
            push_str(&mut s, " ");
            push_char(&mut s, me);
            push_str(&mut s, "inc ");
            push_decimal(&mut s, increment);
            push_str(&mut s, " ");
            push_char(&mut s, opp);
            push_str(&mut s, "time ");
            push_decimal(&mut s, oc.remaining);
            push_str(&mut s, " ");
            push_char(&mut s, opp);
            push_str(&mut s, "inc ");
            push_decimal(&mut s, oi);
        },
        TimeControl::Byoyomi { byoyomi, .. } => {
            push_char(&mut s, me);
            push_str(&mut s, "time ");
            push_decimal(&mut s, mc.remaining);
            push_str(&mut s, " ");
            push_char(&mut s, opp);
            push_str(&mut s, "time ");
            push_decimal(&mut s, oc.remaining);
            push_str(&mut s, " byoyomi ");
            push_decimal(&mut s, byoyomi);
        },
        TimeControl::MoveTime(t) => {
            push_str(&mut s, "movetime ");
            push_decimal(&mut s, t);
        },
        TimeControl::Nodes(n) => {
            push_str(&mut s, "nodes ");
            push_decimal(&mut s, n);
        },
        TimeControl::Unlimited => {
            push_str(&mut s, "infinite");
        },
    }
    assert(s@ =~= spec_usi_time(stm, *sente, *gote));
    s
}

} // verus!

verus! {

/// `n` as exactly `k` decimal digits, with leading zeros.
pub open spec fn padded_digits(n: nat, k: nat) -> Seq<char>
    decreases k,
{
    if k == 0 {
        Seq::empty()
    } else {
        padded_digits(n / 10, (k - 1) as nat).push(crate::text::digit_char(n % 10))
    }
}

/// Milliseconds as decimal seconds: the whole seconds, then a point and the
/// thousandths without trailing zeros, if there are any.
pub open spec fn seconds_chars(ms: nat) -> Seq<char> {
    let whole = decimal_chars(ms / 1000);
    let f = ms % 1000;
    if f == 0 {
        whole
    } else if f % 100 == 0 {
        whole + "."@ + padded_digits(f / 100, 1)
    } else if f % 10 == 0 {
        whole + "."@ + padded_digits(f / 10, 2)
    } else {
        whole + "."@ + padded_digits(f, 3)
    }
}

/// A time control written the way the `tc` engine option reads it
/// (`none` when there is no limit).
pub open spec fn spec_tc_text(tc: TimeControl) -> Seq<char> {
    match tc {
        TimeControl::Unlimited => "none"@,
        TimeControl::Fischer { base, increment } => seconds_chars(base as nat) + "+"@ + seconds_chars(
            increment as nat,
        ),
        TimeControl::Byoyomi { base, byoyomi } => seconds_chars(base as nat) + ","@ + seconds_chars(
            byoyomi as nat,
        ),
        TimeControl::MoveTime(t) => "movetime="@ + seconds_chars(t as nat),
        TimeControl::Nodes(n) => "N="@ + decimal_chars(n as nat),
    }
}

proof fn lemma_digit_char(d: nat)
    requires
        d < 10,
    ensures
        crate::text::is_digit(crate::text::digit_char(d)),
        crate::text::digit_value(crate::text::digit_char(d)) == d,
{
}

proof fn lemma_decimal_chars(n: nat)
    ensures
        decimal_chars(n).len() > 0,
        crate::text::all_digits(decimal_chars(n)),
        crate::text::decimal_value(decimal_chars(n)) == n,
    decreases n,
{
    let s = decimal_chars(n);
    if n >= 10 {
        lemma_decimal_chars(n / 10);
        lemma_digit_char(n % 10);
        assert(s.drop_last() =~= decimal_chars(n / 10));
        assert(s.last() == crate::text::digit_char(n % 10));
        assert((n / 10) * 10 + n % 10 == n);
        assert forall|i: int| 0 <= i < s.len() implies #[trigger] crate::text::is_digit(s[i]) by {
            if i < s.len() - 1 {
                assert(s[i] == decimal_chars(n / 10)[i]);
            }
        }
    } else {
        lemma_digit_char(n);
        assert(s.drop_last() =~= Seq::<char>::empty());
        assert(s.last() == crate::text::digit_char(n));
        assert(crate::text::decimal_value(s.drop_last()) == 0);
    }
}

proof fn lemma_padded_digits(n: nat, k: nat)
    requires
        n < pow10(k),
    ensures
        padded_digits(n, k).len() == k,
        crate::text::all_digits(padded_digits(n, k)),
        crate::text::decimal_value(padded_digits(n, k)) == n,
    decreases k,
{
    let s = padded_digits(n, k);
    if k > 0 {
        assert(n / 10 < pow10((k - 1) as nat)) by (nonlinear_arith)
            requires
                n < 10 * pow10((k - 1) as nat),
        ;
        lemma_padded_digits(n / 10, (k - 1) as nat);
        lemma_digit_char(n % 10);
        assert(s.drop_last() =~= padded_digits(n / 10, (k - 1) as nat));
        assert forall|i: int| 0 <= i < s.len() implies #[trigger] crate::text::is_digit(s[i]) by {
            if i < s.len() - 1 {
                assert(s[i] == padded_digits(n / 10, (k - 1) as nat)[i]);
            }
        }
    } else {
        assert(n == 0);
    }
}

/// Splitting `a c b` at the first `c` when `a` holds none gives `a` and `b`.
proof fn lemma_split_at(a: Seq<char>, c: char, b: Seq<char>)
    requires
        forall|j: int| 0 <= j < a.len() ==> a[j] != c,
    ensures
        spec_split_once(a + seq![c] + b, c) == Some((a, b)),
{
    let s = a + seq![c] + b;
    let i = a.len() as int;
    assert(crate::text::is_first_index(s, c, i));
    let k = choose|k: int| crate::text::is_first_index(s, c, k);
    crate::text::lemma_first_index_unique(s, c, i, k);
    assert(s.take(i) =~= a);
    assert(s.skip(i + 1) =~= b);
}

/// `s` holds no `c`: splitting at `c` gives nothing.
proof fn lemma_no_split(s: Seq<char>, c: char)
    requires
        forall|j: int| 0 <= j < s.len() ==> s[j] != c,
    ensures
        spec_split_once(s, c) is None,
{
}

/// Digits and points: no character of `s` is `c` when `c` is neither.
pub open spec fn digits_and_points(s: Seq<char>) -> bool {
    forall|j: int| 0 <= j < s.len() ==> crate::text::is_digit(#[trigger] s[j]) || s[j] == '.'
}

proof fn lemma_fraction(f: nat)
    requires
        0 < f < 1000,
    ensures
        f % 100 == 0 ==> (f / 100) < pow10(1) && (f / 100) * pow10(2) == f,
        f % 100 != 0 && f % 10 == 0 ==> (f / 10) < pow10(2) && (f / 10) * pow10(1) == f,
        f < pow10(3) && f * pow10(0) == f,
{
    assert(pow10(0) == 1);
    assert(pow10(1) == 10);
    assert(pow10(2) == 100);
    assert(pow10(3) == 1000);
}

/// Decimal seconds read back as the milliseconds they were written from.
proof fn lemma_seconds_chars(ms: nat)
    requires
        ms <= u64::MAX,
    ensures
        spec_seconds_ms(seconds_chars(ms)) == Some(ms),
        seconds_chars(ms).len() > 0,
        crate::text::is_digit(seconds_chars(ms)[0]),
        digits_and_points(seconds_chars(ms)),
{
    let whole = decimal_chars(ms / 1000);
    let f = ms % 1000;
    lemma_decimal_chars(ms / 1000);
    assert(whole[0] == whole[0]);
    reveal_strlit(".");
    assert("."@ =~= seq!['.']);
    assert forall|j: int| 0 <= j < whole.len() implies whole[j] != '.' by {
        assert(crate::text::is_digit(whole[j]));
    }
    if f == 0 {
        lemma_no_split(whole, '.');
    } else {
        lemma_fraction(f);
        let k: nat = if f % 100 == 0 {
            1
        } else if f % 10 == 0 {
            2
        } else {
            3
        };
        let v: nat = if f % 100 == 0 {
            f / 100
        } else if f % 10 == 0 {
            f / 10
        } else {
            f
        };
        lemma_padded_digits(v, k);
        let frac = padded_digits(v, k);
        lemma_split_at(whole, '.', frac);
        let s = seconds_chars(ms);
        assert(s =~= whole + seq!['.'] + frac);
        assert(s[0] == whole[0]);
        assert forall|j: int| 0 <= j < s.len() implies crate::text::is_digit(#[trigger] s[j]) || s[j] == '.' by {
            if j < whole.len() {
                assert(s[j] == whole[j]);
            } else if j > whole.len() {
                assert(s[j] == frac[j - whole.len() - 1]);
            }
        }
        assert(v * pow10((3 - k) as nat) == f);
    }
}

proof fn lemma_not_prefixed(t: Seq<char>)
    requires
        t.len() > 0,
        crate::text::is_digit(t[0]),
    ensures
        !spec_starts_with(t, "N="@),
        !spec_starts_with(t, "movetime="@),
{
    reveal_strlit("N=");
    reveal_strlit("movetime=");
    if spec_starts_with(t, "N="@) {
        assert(t.take(2)[0] == t[0]);
    }
    if spec_starts_with(t, "movetime="@) {
        assert(t.take(9)[0] == t[0]);
    }
}

/// `a sep b` for decimal seconds `a` and `b`: split at `sep` it gives them back.
proof fn lemma_joined_seconds(x: nat, sep: char, y: nat)
    requires
        x <= u64::MAX,
        y <= u64::MAX,
        !crate::text::is_digit(sep),
        sep != '.',
    ensures
        ({
            let t = seconds_chars(x) + seq![sep] + seconds_chars(y);
            &&& spec_split_once(t, sep) == Some((seconds_chars(x), seconds_chars(y)))
            &&& spec_base_ms(seconds_chars(x)) == Some(x)
            &&& spec_seconds_ms(seconds_chars(y)) == Some(y)
            &&& t.len() > 0 && crate::text::is_digit(t[0])
            &&& forall|c: char| c != sep && !crate::text::is_digit(c) && c != '.' ==> spec_split_once(t, c) is None
        }),
{
    let a = seconds_chars(x);
    let b = seconds_chars(y);
    lemma_seconds_chars(x);
    lemma_seconds_chars(y);
    assert forall|j: int| 0 <= j < a.len() implies a[j] != sep by {
        assert(crate::text::is_digit(a[j]) || a[j] == '.');
    }
    lemma_split_at(a, sep, b);
    assert forall|j: int| 0 <= j < a.len() implies a[j] != ':' by {
        assert(crate::text::is_digit(a[j]) || a[j] == '.');
    }
    lemma_no_split(a, ':');
    let t = a + seq![sep] + b;
    assert(t[0] == a[0]);
    assert forall|c: char| c != sep && !crate::text::is_digit(c) && c != '.' implies spec_split_once(t, c) is None by {
        assert forall|j: int| 0 <= j < t.len() implies t[j] != c by {
            if j < a.len() {
                assert(t[j] == a[j]);
                assert(crate::text::is_digit(a[j]) || a[j] == '.');
            } else if j > a.len() {
                assert(t[j] == b[j - a.len() - 1]);
                assert(crate::text::is_digit(b[j - a.len() - 1]) || b[j - a.len() - 1] == '.');
            }
        }
        lemma_no_split(t, c);
    }
}

proof fn lemma_fischer_roundtrip(base: u64, increment: u64)
    ensures
        spec_parse_tc(spec_tc_text(TimeControl::Fischer { base, increment })) == Some(
            TimeControl::Fischer { base, increment },
        ),
{
    let t = spec_tc_text(TimeControl::Fischer { base, increment });
    reveal_strlit("+");
    assert("+"@ =~= seq!['+']);
    lemma_joined_seconds(base as nat, '+', increment as nat);
    lemma_not_prefixed(t);
}

proof fn lemma_byoyomi_roundtrip(base: u64, byoyomi: u64)
    ensures
        spec_parse_tc(spec_tc_text(TimeControl::Byoyomi { base, byoyomi })) == Some(
            TimeControl::Byoyomi { base, byoyomi },
        ),
{
    let t = spec_tc_text(TimeControl::Byoyomi { base, byoyomi });
    reveal_strlit(",");
    assert(","@ =~= seq![',']);
    lemma_joined_seconds(base as nat, ',', byoyomi as nat);
    assert(!crate::text::is_digit('+'));
    lemma_not_prefixed(t);
}

proof fn lemma_movetime_roundtrip(m: u64)
    ensures
        spec_parse_tc(spec_tc_text(TimeControl::MoveTime(m))) == Some(TimeControl::MoveTime(m)),
{
    let t = spec_tc_text(TimeControl::MoveTime(m));
    reveal_strlit("N=");
    reveal_strlit("movetime=");
    lemma_seconds_chars(m as nat);
    assert(t.take(9) =~= "movetime="@);
    assert(t.skip(9) =~= seconds_chars(m as nat));
    assert(!spec_starts_with(t, "N="@)) by {
        assert(t.take(2)[0] == t[0]);
    }
}

proof fn lemma_nodes_roundtrip(n: u64)
    ensures
        spec_parse_tc(spec_tc_text(TimeControl::Nodes(n))) == Some(TimeControl::Nodes(n)),
{
    let t = spec_tc_text(TimeControl::Nodes(n));
    reveal_strlit("N=");
    lemma_decimal_chars(n as nat);
    assert(t.take(2) =~= "N="@);
    assert(t.skip(2) =~= decimal_chars(n as nat));
    assert(crate::text::is_digit(decimal_chars(n as nat)[0]));
}

/// Writing a time control that has a limit and reading it back gives the
/// time control.
pub proof fn lemma_tc_text_roundtrip(tc: TimeControl)
    requires
        !(tc is Unlimited),
    ensures
        spec_parse_tc(spec_tc_text(tc)) == Some(tc),
{
    match tc {
        TimeControl::Fischer { base, increment } => lemma_fischer_roundtrip(base, increment),
        TimeControl::Byoyomi { base, byoyomi } => lemma_byoyomi_roundtrip(base, byoyomi),
        TimeControl::MoveTime(m) => lemma_movetime_roundtrip(m),
        TimeControl::Nodes(n) => lemma_nodes_roundtrip(n),
        TimeControl::Unlimited => {},
    }
}

/// Appends `n` as `k` decimal digits with leading zeros.
fn push_padded(s: &mut String, n: u64, k: u64)
    requires
        k <= 3,
    ensures
        final(s)@ == old(s)@ + padded_digits(n as nat, k as nat),
    decreases k,
{
    if k > 0 {
        push_padded(s, n / 10, k - 1);
        let d = (n % 10) as u8;
        push_char(s, (d + 48) as char);
        assert(s@ =~= old(s)@ + padded_digits(n as nat, k as nat));
    }
}

/// Appends `ms` milliseconds as decimal seconds.
fn push_seconds(s: &mut String, ms: u64)
    ensures
        final(s)@ == old(s)@ + seconds_chars(ms as nat),
{
    push_decimal(s, ms / 1000);
    let f = ms % 1000;
    if f != 0 {
        push_char(s, '.');
        if f % 100 == 0 {
            push_padded(s, f / 100, 1);
        } else if f % 10 == 0 {
            push_padded(s, f / 10, 2);
        } else {
            push_padded(s, f, 3);
        }
    }
    proof {
        reveal_strlit(".");
    }
    assert(s@ =~= old(s)@ + seconds_chars(ms as nat));
}

impl TimeControl {
    /// The time control written the way the `tc` engine option reads it.
    pub fn to_string(&self) -> (r: String)
        ensures
            r@ == spec_tc_text(*self),
    {
        let mut s = String::new();
        match *self {
            TimeControl::Unlimited => {
                push_str(&mut s, "none");
            },
            TimeControl::Fischer { base, increment } => {
                push_seconds(&mut s, base);
                push_str(&mut s, "+");
                push_seconds(&mut s, increment);
            },
            TimeControl::Byoyomi { base, byoyomi } => {
                push_seconds(&mut s, base);
                push_str(&mut s, ",");
                push_seconds(&mut s, byoyomi);
            },
            TimeControl::MoveTime(t) => {
                push_str(&mut s, "movetime=");
                push_seconds(&mut s, t);
            },
            TimeControl::Nodes(n) => {
                push_str(&mut s, "N=");
                push_decimal(&mut s, n);
            },
        }
        assert(s@ =~= spec_tc_text(*self));
        s
    }
}

} // verus!

verus! {

/// `part` occurs somewhere in `s`.
pub open spec fn occurs_in(part: Seq<char>, s: Seq<char>) -> bool {
    exists|i: int| 0 <= i <= s.len() - part.len() && #[trigger] s.subrange(i, i + part.len()) == part
}

proof fn lemma_occurs_between(p: Seq<char>, q: Seq<char>, r: Seq<char>)
    ensures
        occurs_in(q, p + q + r),
{
    let s = p + q + r;
    assert(s.subrange(p.len() as int, (p.len() + q.len()) as int) =~= q);
}

/// `s` ends with `part`.
pub open spec fn ends_with(part: Seq<char>, s: Seq<char>) -> bool {
    s.len() >= part.len() && s.subrange(s.len() - part.len(), s.len() as int) == part
}

/// `part` stands in `s` as a whole word: followed by a space, or at the end.
pub open spec fn occurs_as_word(part: Seq<char>, s: Seq<char>) -> bool {
    occurs_in(part + " "@, s) || ends_with(part, s)
}

proof fn lemma_ends_with(p: Seq<char>, q: Seq<char>)
    ensures
        ends_with(q, p + q),
{
    assert((p + q).subrange(p.len() as int, (p + q).len() as int) =~= q);
}

#[verifier::spinoff_prover]
#[verifier::rlimit(40)]
proof fn lemma_usi_time_fischer(stm: Color, sente: EngineTime, gote: EngineTime)
    requires
        (match stm {
            Color::Sente => sente,
            Color::Gote => gote,
        }).time_control is Fischer,
    ensures
        occurs_in("btime "@ + decimal_chars(sente.remaining as nat) + " "@, spec_usi_time(stm, sente, gote)),
        occurs_in("wtime "@ + decimal_chars(gote.remaining as nat) + " "@, spec_usi_time(stm, sente, gote)),
        occurs_as_word("binc "@ + decimal_chars(increment_of(sente) as nat), spec_usi_time(stm, sente, gote)),
        occurs_as_word("winc "@ + decimal_chars(increment_of(gote) as nat), spec_usi_time(stm, sente, gote)),
{
    reveal_strlit("btime ");
    reveal_strlit("wtime ");
    reveal_strlit("time ");
    reveal_strlit(" ");
    let t = spec_usi_time(stm, sente, gote);
    let bq = "btime "@ + decimal_chars(sente.remaining as nat) + " "@;
    let wq = "wtime "@ + decimal_chars(gote.remaining as nat) + " "@;
    let is = seq!['i', 'n', 'c', ' '] + decimal_chars(increment_of(sente) as nat);
    let ig = seq!['i', 'n', 'c', ' '] + decimal_chars(increment_of(gote) as nat);
    reveal_strlit("inc ");
    assert("inc "@ =~= seq!['i', 'n', 'c', ' ']);
    match stm {
        Color::Sente => {
            let mid = seq!['b'] + is + seq![' '];
            let tail = seq!['w'] + ig;
            assert(t =~= bq + mid + wq + tail);
            lemma_occurs_between(Seq::<char>::empty(), bq, mid + wq + tail);
            assert(Seq::<char>::empty() + bq + (mid + wq + tail) =~= t);
            lemma_occurs_between(bq + mid, wq, tail);
            assert(bq + mid + wq + tail =~= t);
            reveal_strlit("binc ");
            reveal_strlit("winc ");
            let bi = "binc "@ + decimal_chars(increment_of(sente) as nat);
            let wi = "winc "@ + decimal_chars(increment_of(gote) as nat);
            assert(mid =~= bi + " "@);
            assert(t =~= bq + (bi + " "@) + (wq + tail));
            lemma_occurs_between(bq, bi + " "@, wq + tail);
            assert(tail =~= wi);
            assert(t =~= (bq + mid + wq) + wi);
            lemma_ends_with(bq + mid + wq, wi);
        },
        Color::Gote => {
            let mid = seq!['w'] + ig + seq![' '];
            let tail = seq!['b'] + is;
            assert(t =~= wq + mid + bq + tail);
            lemma_occurs_between(Seq::<char>::empty(), wq, mid + bq + tail);
            assert(Seq::<char>::empty() + wq + (mid + bq + tail) =~= t);
            lemma_occurs_between(wq + mid, bq, tail);
            assert(wq + mid + bq + tail =~= t);
            reveal_strlit("binc ");
            reveal_strlit("winc ");
            let bi = "binc "@ + decimal_chars(increment_of(sente) as nat);
            let wi = "winc "@ + decimal_chars(increment_of(gote) as nat);
            assert(mid =~= wi + " "@);
            assert(t =~= wq + (wi + " "@) + (bq + tail));
            lemma_occurs_between(wq, wi + " "@, bq + tail);
            assert(tail =~= bi);
            assert(t =~= (wq + mid + bq) + bi);
            lemma_ends_with(wq + mid + bq, bi);
        },
    }
}

#[verifier::spinoff_prover]
#[verifier::rlimit(40)]
proof fn lemma_usi_time_byoyomi(stm: Color, sente: EngineTime, gote: EngineTime)
    requires
        (match stm {
            Color::Sente => sente,
            Color::Gote => gote,
        }).time_control is Byoyomi,
    ensures
        occurs_in("btime "@ + decimal_chars(sente.remaining as nat) + " "@, spec_usi_time(stm, sente, gote)),
        occurs_in("wtime "@ + decimal_chars(gote.remaining as nat) + " "@, spec_usi_time(stm, sente, gote)),
        ends_with(
            "byoyomi "@ + decimal_chars(
                (match stm {
                    Color::Sente => sente,
                    Color::Gote => gote,
                }).time_control->byoyomi as nat,
            ),
            spec_usi_time(stm, sente, gote),
        ),
{
    reveal_strlit("btime ");
    reveal_strlit("wtime ");
    reveal_strlit("time ");
    reveal_strlit(" ");
    reveal_strlit(" byoyomi ");
    let t = spec_usi_time(stm, sente, gote);
    let bq = "btime "@ + decimal_chars(sente.remaining as nat) + " "@;
    let wq = "wtime "@ + decimal_chars(gote.remaining as nat) + " "@;
    let y = match stm {
        Color::Sente => sente,
        Color::Gote => gote,
    }.time_control->byoyomi;
    let tail = " byoyomi "@.skip(1) + decimal_chars(y as nat);
    match stm {
        Color::Sente => {
            assert(t =~= bq + wq + tail);
            lemma_occurs_between(Seq::<char>::empty(), bq, wq + tail);
            assert(Seq::<char>::empty() + bq + (wq + tail) =~= t);
            lemma_occurs_between(bq, wq, tail);
            reveal_strlit("byoyomi ");
            assert(tail =~= "byoyomi "@ + decimal_chars(y as nat));
            lemma_ends_with(bq + wq, tail);
        },
        Color::Gote => {
            assert(t =~= wq + bq + tail);
            lemma_occurs_between(Seq::<char>::empty(), wq, bq + tail);
            assert(Seq::<char>::empty() + wq + (bq + tail) =~= t);
            lemma_occurs_between(wq, bq, tail);
            reveal_strlit("byoyomi ");
            assert(tail =~= "byoyomi "@ + decimal_chars(y as nat));
            lemma_ends_with(wq + bq, tail);
        },
    }
}

/// With a Fischer or byoyomi clock, whichever side is to move, the `go`
/// arguments give Sente's remaining time after `btime` and Gote's after
/// `wtime`; with Fischer, Sente's increment after `binc` and Gote's after
/// `winc`; with byoyomi, the mover's byoyomi at the end.
pub proof fn lemma_usi_time_names_each_clock(stm: Color, sente: EngineTime, gote: EngineTime)
    requires
        (match stm {
            Color::Sente => sente,
            Color::Gote => gote,
        }).time_control is Fischer || (match stm {
            Color::Sente => sente,
            Color::Gote => gote,
        }).time_control is Byoyomi,
    ensures
        occurs_in("btime "@ + decimal_chars(sente.remaining as nat) + " "@, spec_usi_time(stm, sente, gote)),
        occurs_in("wtime "@ + decimal_chars(gote.remaining as nat) + " "@, spec_usi_time(stm, sente, gote)),
        (match stm {
            Color::Sente => sente,
            Color::Gote => gote,
        }).time_control is Fischer ==> occurs_as_word(
            "binc "@ + decimal_chars(increment_of(sente) as nat),
            spec_usi_time(stm, sente, gote),
        ),
        (match stm {
            Color::Sente => sente,
            Color::Gote => gote,
        }).time_control is Fischer ==> occurs_as_word(
            "winc "@ + decimal_chars(increment_of(gote) as nat),
            spec_usi_time(stm, sente, gote),
        ),
        (match stm {
            Color::Sente => sente,
            Color::Gote => gote,
        }).time_control is Byoyomi ==> ends_with(
            "byoyomi "@ + decimal_chars(
                (match stm {
                    Color::Sente => sente,
                    Color::Gote => gote,
                }).time_control->byoyomi as nat,
            ),
            spec_usi_time(stm, sente, gote),
        ),
{
    if (match stm {
        Color::Sente => sente,
        Color::Gote => gote,
    }).time_control is Fischer {
        lemma_usi_time_fischer(stm, sente, gote);
    } else {
        lemma_usi_time_byoyomi(stm, sente, gote);
    }
}

} // verus!

verus! {

/// Charging a move to a clock: the time control and margin stay; a clock
/// without a time limit never loses on time and keeps its time; a move that
/// takes longer than the time left (plus byoyomi or the fixed move time)
/// and the margin loses on time; one in time takes its time from the clock,
/// then a Fischer increment is added, while byoyomi only uses up the main
/// time. A longer move never leaves more time, nor is in time when a
/// shorter one is not.
pub proof fn lemma_clock_charges_moves(t: EngineTime, e1: u64, e2: u64)
    ensures
        spec_step(t, e1).0.time_control == t.time_control,
        spec_step(t, e1).0.margin == t.margin,
        (t.time_control is Unlimited || t.time_control is Nodes) ==> spec_step(t, e1) == (
        t,
        StepResult::InTime,
        ),
        (t.time_control is Fischer && e1 > t.remaining + t.margin
            && t.remaining + t.margin <= u64::MAX) ==> spec_step(t, e1).1 == StepResult::TimeElapsed,
        (t.time_control is Fischer && e1 <= t.remaining && t.remaining
            - e1 + increment_of(t) <= u64::MAX) ==> spec_step(t, e1) == (
        EngineTime { remaining: (t.remaining - e1 + increment_of(t)) as u64, ..t },
        StepResult::InTime,
        ),
        (t.time_control is Byoyomi && e1 > t.remaining + t.time_control->byoyomi
            + t.margin && t.remaining + t.time_control->byoyomi + t.margin <= u64::MAX) ==> spec_step(t, e1).1
            == StepResult::TimeElapsed,
        (t.time_control is Byoyomi && e1 <= t.remaining + t.time_control->byoyomi
            + t.margin) ==> spec_step(t, e1) == (
        EngineTime { remaining: if e1 <= t.remaining { (t.remaining - e1) as u64 } else { 0 }, ..t },
        StepResult::InTime,
        ),
        (t.time_control is MoveTime && e1 > t.time_control->MoveTime_0 + t.margin && t.time_control->MoveTime_0 + t.margin
            <= u64::MAX) ==> spec_step(t, e1).1 == StepResult::TimeElapsed,
        (t.time_control is MoveTime && e1 <= t.time_control->MoveTime_0 + t.margin) ==> spec_step(t, e1)
            == (t, StepResult::InTime),
        e1 <= e2 ==> spec_step(t, e2).0.remaining <= spec_step(t, e1).0.remaining,
        e1 <= e2 && spec_step(t, e2).1 == StepResult::InTime ==> spec_step(t, e1).1
            == StepResult::InTime,
{
}

} // verus!
