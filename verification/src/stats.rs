//! Game and game-pair tallies: win/draw/loss counts and pentanomial counts.

use vstd::prelude::*;
use crate::text::{decimal_chars, push_char, push_decimal, push_decimal_wide};

verus! {

/// Wins, draws and losses of one engine against another.
#[derive(Debug, Clone, Copy, PartialEq, Eq, Structural)]
pub struct Wdl {
    pub w: u64,
    pub d: u64,
    pub l: u64,
}

impl Wdl {
    /// The number of games tallied.
    pub open spec fn total(self) -> nat {
        (self.w + self.d + self.l) as nat
    }

    /// The same games from the opponent's side.
    pub open spec fn spec_flip(self) -> Wdl {
        Wdl { w: self.l, d: self.d, l: self.w }
    }

    /// Field-wise sum, when it fits.
    pub open spec fn spec_add(self, o: Wdl) -> Wdl {
        Wdl { w: (self.w + o.w) as u64, d: (self.d + o.d) as u64, l: (self.l + o.l) as u64 }
    }

    /// No games.
    pub fn zero() -> (r: Wdl)
        ensures
            r == (Wdl { w: 0, d: 0, l: 0 }),
    {
        Wdl { w: 0, d: 0, l: 0 }
    }

    /// One win.
    pub fn one_win() -> (r: Wdl)
        ensures
            r == (Wdl { w: 1, d: 0, l: 0 }),
    {
        Wdl { w: 1, d: 0, l: 0 }
    }

    /// One draw.
    pub fn one_draw() -> (r: Wdl)
        ensures
            r == (Wdl { w: 0, d: 1, l: 0 }),
    {
        Wdl { w: 0, d: 1, l: 0 }
    }

    /// One loss.
    pub fn one_loss() -> (r: Wdl)
        ensures
            r == (Wdl { w: 0, d: 0, l: 1 }),
    {
        Wdl { w: 0, d: 0, l: 1 }
    }

    /// The same games from the opponent's side.
    pub fn flip(self) -> (r: Wdl)
        ensures
            r == self.spec_flip(),
    {
        Wdl { w: self.l, d: self.d, l: self.w }
    }

    /// Field-wise sum.
    pub fn add(self, o: Wdl) -> (r: Wdl)
        requires
            self.w + o.w <= u64::MAX,
            self.d + o.d <= u64::MAX,
            self.l + o.l <= u64::MAX,
        ensures
            r == self.spec_add(o),
    {
        Wdl { w: self.w + o.w, d: self.d + o.d, l: self.l + o.l }
    }

    /// The number of games tallied.
    pub fn game_count(&self) -> (r: u64)
        requires
            self.total() <= u64::MAX,
        ensures
            r == self.total(),
    {
        self.w + self.d + self.l
    }
}

/// Outcomes of game pairs (the same opening played with colours reversed),
/// counted by the pair's result: two losses, a draw and a loss, a win and a
/// loss, two draws, a win and a draw, two wins.
#[derive(Debug, Clone, Copy, PartialEq, Eq, Structural)]
pub struct Penta {
    pub ll: u64,
    pub dl: u64,
    pub wl: u64,
    pub dd: u64,
    pub wd: u64,
    pub ww: u64,
}

impl Penta {
    /// The number of pairs tallied.
    pub open spec fn total(self) -> nat {
        (self.ll + self.dl + self.wl + self.dd + self.wd + self.ww) as nat
    }

    /// The same pairs from the opponent's side.
    pub open spec fn spec_flip(self) -> Penta {
        Penta { ll: self.ww, dl: self.wd, wl: self.wl, dd: self.dd, wd: self.dl, ww: self.ll }
    }

    /// Field-wise sum, when it fits.
    pub open spec fn spec_add(self, o: Penta) -> Penta {
        Penta {
            ll: (self.ll + o.ll) as u64,
            dl: (self.dl + o.dl) as u64,
            wl: (self.wl + o.wl) as u64,
            dd: (self.dd + o.dd) as u64,
            wd: (self.wd + o.wd) as u64,
            ww: (self.ww + o.ww) as u64,
        }
    }

    /// The tally with all counts zero.
    pub open spec fn spec_zero() -> Penta {
        Penta { ll: 0, dl: 0, wl: 0, dd: 0, wd: 0, ww: 0 }
    }

    /// No pairs.
    pub fn zero() -> (r: Penta)
        ensures
            r == Penta::spec_zero(),
    {
        Penta { ll: 0, dl: 0, wl: 0, dd: 0, wd: 0, ww: 0 }
    }

    /// The same pairs from the opponent's side.
    pub fn flip(self) -> (r: Penta)
        ensures
            r == self.spec_flip(),
    {
        Penta { ll: self.ww, dl: self.wd, wl: self.wl, dd: self.dd, wd: self.dl, ww: self.ll }
    }

    /// Field-wise sum.
    pub fn add(self, o: Penta) -> (r: Penta)
        requires
            self.total() + o.total() <= u64::MAX,
        ensures
            r == self.spec_add(o),
    {
        Penta {
            ll: self.ll + o.ll,
            dl: self.dl + o.dl,
            wl: self.wl + o.wl,
            dd: self.dd + o.dd,
            wd: self.wd + o.wd,
            ww: self.ww + o.ww,
        }
    }

    /// The number of pairs tallied.
    pub fn pair_count(&self) -> (r: u64)
        requires
            self.total() <= u64::MAX,
        ensures
            r == self.total(),
    {
        self.ll + self.dl + self.wl + self.dd + self.wd + self.ww
    }
}

/// Flipping a tally twice gives it back, and keeps its size.
pub proof fn lemma_flip_involutive(x: Wdl, y: Penta)
    ensures
        x.spec_flip().spec_flip() == x,
        x.spec_flip().total() == x.total(),
        y.spec_flip().spec_flip() == y,
        y.spec_flip().total() == y.total(),
{
}

} // verus!

verus! {

/// The pair tally written `[LL, DL, WL+DD, WD, WW]`: split pairs and drawn
/// pairs count together, as both score one point out of two.
pub open spec fn spec_penta_text(p: Penta) -> Seq<char> {
    seq!['['] + decimal_chars(p.ll as nat) + seq![',', ' '] + decimal_chars(p.dl as nat) + seq![',', ' ']
        + decimal_chars((p.wl + p.dd) as nat) + seq![',', ' '] + decimal_chars(p.wd as nat) + seq![',', ' ']
        + decimal_chars(p.ww as nat) + seq![']']
}

fn push_separator(s: &mut String)
    ensures
        final(s)@ == old(s)@ + seq![',', ' '],
{
    push_char(s, ',');
    push_char(s, ' ');
    assert(s@ =~= old(s)@ + seq![',', ' ']);
}

/// The pair tally written `[LL, DL, WL+DD, WD, WW]`.
pub fn penta_string(p: &Penta) -> (r: String)
    ensures
        r@ == spec_penta_text(*p),
{
    let mut s = String::new();
    push_char(&mut s, '[');
    push_decimal(&mut s, p.ll);
    push_separator(&mut s);
    push_decimal(&mut s, p.dl);
    push_separator(&mut s);
    push_decimal_wide(&mut s, p.wl as u128 + p.dd as u128);
    push_separator(&mut s);
    push_decimal(&mut s, p.wd);
    push_separator(&mut s);
    push_decimal(&mut s, p.ww);
    push_char(&mut s, ']');
    assert(s@ =~= spec_penta_text(*p));
    s
}

} // verus!
