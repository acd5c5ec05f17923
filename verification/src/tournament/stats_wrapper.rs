//! Running tallies of a tournament: results per pair of engines, game pairs
//! per pair of engines, and the decision to stop early.

use std::collections::HashMap;
use vstd::prelude::*;
use crate::shogi::Color;
use crate::stats::{Penta, Wdl};
use super::TournamentState;

verus! {

broadcast use vstd::std_specs::hash::group_hash_axioms;

/// The map key of the ordered engine pair `(a, b)`.
pub open spec fn pair_key(a: usize, b: usize) -> u128 {
    (a * 0x1_0000_0000_0000_0000 + b) as u128
}

fn make_pair_key(a: usize, b: usize) -> (r: u128)
    ensures
        r == pair_key(a, b),
{
    (a as u128) * 0x1_0000_0000_0000_0000u128 + (b as u128)
}

/// Different ordered pairs have different keys.
pub proof fn lemma_pair_key_injective(a: usize, b: usize, c: usize, d: usize)
    ensures
        pair_key(a, b) == pair_key(c, d) <==> (a == c && b == d),
{
}

/// The tally of `a` against `b` in `m`; none if absent.
pub open spec fn wdl_cell(m: Map<u128, Wdl>, a: usize, b: usize) -> Wdl {
    if m.contains_key(pair_key(a, b)) {
        m[pair_key(a, b)]
    } else {
        Wdl { w: 0, d: 0, l: 0 }
    }
}

/// The pair tally of `a` against `b` in `m`; none if absent.
pub open spec fn penta_cell(m: Map<u128, Penta>, a: usize, b: usize) -> Penta {
    if m.contains_key(pair_key(a, b)) {
        m[pair_key(a, b)]
    } else {
        Penta::spec_zero()
    }
}

/// The tallies of `e` against opponents `0..k`, added up.
pub open spec fn wdl_row(m: Map<u128, Wdl>, e: usize, k: nat) -> Wdl
    decreases k,
{
    if k == 0 {
        Wdl { w: 0, d: 0, l: 0 }
    } else {
        wdl_row(m, e, (k - 1) as nat).spec_add(wdl_cell(m, e, (k - 1) as usize))
    }
}

/// The number of games of `e` against opponents `0..k`.
pub open spec fn wdl_row_total(m: Map<u128, Wdl>, e: usize, k: nat) -> nat
    decreases k,
{
    if k == 0 {
        0
    } else {
        wdl_row_total(m, e, (k - 1) as nat) + wdl_cell(m, e, (k - 1) as usize).total()
    }
}

/// The pair tallies of `e` against opponents `0..k`, added up.
pub open spec fn penta_row(m: Map<u128, Penta>, e: usize, k: nat) -> Penta
    decreases k,
{
    if k == 0 {
        Penta::spec_zero()
    } else {
        penta_row(m, e, (k - 1) as nat).spec_add(penta_cell(m, e, (k - 1) as usize))
    }
}

/// The number of game pairs of `e` against opponents `0..k`.
pub open spec fn penta_row_total(m: Map<u128, Penta>, e: usize, k: nat) -> nat
    decreases k,
{
    if k == 0 {
        0
    } else {
        penta_row_total(m, e, (k - 1) as nat) + penta_cell(m, e, (k - 1) as usize).total()
    }
}

/// When the number of games fits, the added-up tally counts exactly them.
proof fn lemma_wdl_row_exact(m: Map<u128, Wdl>, e: usize, k: nat)
    requires
        k <= usize::MAX + 1,
        wdl_row_total(m, e, k) <= u64::MAX,
    ensures
        wdl_row(m, e, k).total() == wdl_row_total(m, e, k),
    decreases k,
{
    if k > 0 {
        lemma_wdl_row_exact(m, e, (k - 1) as nat);
    }
}

/// When the number of pairs fits, the added-up tally counts exactly them.
proof fn lemma_penta_row_exact(m: Map<u128, Penta>, e: usize, k: nat)
    requires
        k <= usize::MAX + 1,
        penta_row_total(m, e, k) <= u64::MAX,
    ensures
        penta_row(m, e, k).total() == penta_row_total(m, e, k),
    decreases k,
{
    if k > 0 {
        lemma_penta_row_exact(m, e, (k - 1) as nat);
    }
}

/// Changing the tally of `(a, b)` changes the game count of row `a` alone.
proof fn lemma_wdl_row_total_insert(m: Map<u128, Wdl>, a: usize, b: usize, x: Wdl, e: usize, k: nat)
    requires
        k <= usize::MAX + 1,
    ensures
        wdl_row_total(m.insert(pair_key(a, b), x), e, k) + (if e == a && b < k {
            wdl_cell(m, a, b).total()
        } else {
            0
        }) == wdl_row_total(m, e, k) + (if e == a && b < k {
            x.total()
        } else {
            0
        }),
    decreases k,
{
    if k > 0 {
        lemma_wdl_row_total_insert(m, a, b, x, e, (k - 1) as nat);
        lemma_pair_key_injective(a, b, e, (k - 1) as usize);
    }
}

/// Changing the pair tally of `(a, b)` changes the pair count of row `a` alone.
proof fn lemma_penta_row_total_insert(
    m: Map<u128, Penta>,
    a: usize,
    b: usize,
    x: Penta,
    e: usize,
    k: nat,
)
    requires
        k <= usize::MAX + 1,
    ensures
        penta_row_total(m.insert(pair_key(a, b), x), e, k) + (if e == a && b < k {
            penta_cell(m, a, b).total()
        } else {
            0
        }) == penta_row_total(m, e, k) + (if e == a && b < k {
            x.total()
        } else {
            0
        }),
    decreases k,
{
    if k > 0 {
        lemma_penta_row_total_insert(m, a, b, x, e, (k - 1) as nat);
        lemma_pair_key_injective(a, b, e, (k - 1) as usize);
    }
}

/// The game tallied for the first engine of a game from its winner.
pub open spec fn wdl_of(result: Option<Color>) -> Wdl {
    match result {
        Some(Color::Sente) => Wdl { w: 1, d: 0, l: 0 },
        None => Wdl { w: 0, d: 1, l: 0 },
        Some(Color::Gote) => Wdl { w: 0, d: 0, l: 1 },
    }
}

/// The winner of a game seen from the other side.
pub open spec fn flip_result(result: Option<Color>) -> Option<Color> {
    match result {
        Some(c) => Some(c.spec_flip()),
        None => None,
    }
}

/// The pair tallied for an engine that got `r1` in one game and `r2` in the
/// other, each given as the winning side from that engine's point of view
/// (`Sente` for a win, `Gote` for a loss, `None` for a draw).
pub open spec fn penta_of(r1: Option<Color>, r2: Option<Color>) -> Penta {
    let z = Penta::spec_zero();
    match (r1, r2) {
        (Some(Color::Sente), Some(Color::Sente)) => Penta { ww: 1, ..z },
        (Some(Color::Sente), None) | (None, Some(Color::Sente)) => Penta { wd: 1, ..z },
        (None, None) => Penta { dd: 1, ..z },
        (Some(Color::Gote), Some(Color::Sente)) | (Some(Color::Sente), Some(Color::Gote)) => Penta {
            wl: 1,
            ..z
        },
        (Some(Color::Gote), None) | (None, Some(Color::Gote)) => Penta { dl: 1, ..z },
        (Some(Color::Gote), Some(Color::Gote)) => Penta { ll: 1, ..z },
    }
}

/// The first game of a pair whose second game has not been played yet.
#[derive(Debug, Clone, Copy)]
pub struct PendingHalf {
    /// The engines in the order of that game's ticket.
    pub engines: (usize, usize),
    /// The side that won that game.
    pub result: Option<Color>,
}

/// The tallies that a tournament keeps, and whether it should stop handing
/// out matches because a sequential probability ratio test has decided.
pub struct StatsWrapper {
    engine_count: usize,
    wdl_board: HashMap<u128, Wdl>,
    penta_board: HashMap<u128, Penta>,
    pending_pairing: HashMap<u64, PendingHalf>,
    sprt: bool,
    match_ticket_count: u64,
    match_complete_count: u64,
    should_terminate: bool,
}

impl StatsWrapper {
    /// The number of engines in the tournament.
    pub closed spec fn engines(&self) -> usize {
        self.engine_count
    }

    /// The tallies of ordered engine pairs, by `pair_key`.
    pub closed spec fn wdl_map(&self) -> Map<u128, Wdl> {
        self.wdl_board@
    }

    /// The game-pair tallies of ordered engine pairs, by `pair_key`.
    pub closed spec fn penta_map(&self) -> Map<u128, Penta> {
        self.penta_board@
    }

    /// The tally of engine `a` against engine `b`.
    pub open spec fn wdl(&self, a: usize, b: usize) -> Wdl {
        wdl_cell(self.wdl_map(), a, b)
    }

    /// The game-pair tally of engine `a` against engine `b`.
    pub open spec fn penta(&self, a: usize, b: usize) -> Penta {
        penta_cell(self.penta_map(), a, b)
    }

    /// First games of pairs waiting for their second game, by match number.
    pub closed spec fn pending(&self) -> Map<u64, PendingHalf> {
        self.pending_pairing@
    }

    /// Whether a sequential probability ratio test runs.
    pub closed spec fn sprt_enabled(&self) -> bool {
        self.sprt
    }

    /// Matches handed out.
    pub closed spec fn tickets(&self) -> u64 {
        self.match_ticket_count
    }

    /// Matches completed.
    pub closed spec fn completed(&self) -> u64 {
        self.match_complete_count
    }

    /// Whether the test has decided, so that no more matches are handed out.
    pub closed spec fn terminating(&self) -> bool {
        self.should_terminate
    }

    /// The sum of the tallies of `e` against every engine.
    pub open spec fn wdl_total_for(&self, e: usize) -> Wdl {
        wdl_row(self.wdl_map(), e, self.engines() as nat)
    }

    /// The sum of the game-pair tallies of `e` against every engine.
    pub open spec fn penta_total_for(&self, e: usize) -> Penta {
        penta_row(self.penta_map(), e, self.engines() as nat)
    }

    /// The tallies mirror each other (what `a` won against `b`, `b` lost
    /// against `a`), and no engine has more games or pairs than twice the
    /// number of completed matches.
    pub closed spec fn wf(&self) -> bool {
        &&& wdl_mirrored(self.wdl_board@)
        &&& penta_mirrored(self.penta_board@)
        &&& wdl_bounded(self.wdl_board@, self.engine_count, 2 * self.match_complete_count as nat)
        &&& penta_bounded(self.penta_board@, self.engine_count, 2 * self.match_complete_count as nat)
        &&& self.match_complete_count <= u64::MAX / 2
        &&& self.sprt ==> self.engine_count == 2
    }
}

} // verus!

verus! {

/// Nothing tallied in an empty map.
proof fn lemma_rows_of_empty(e: usize, k: nat)
    ensures
        wdl_row_total(Map::<u128, Wdl>::empty(), e, k) == 0,
        penta_row_total(Map::<u128, Penta>::empty(), e, k) == 0,
    decreases k,
{
    if k > 0 {
        lemma_rows_of_empty(e, (k - 1) as nat);
    }
}

/// A prefix of a row has no more games than the row.
proof fn lemma_row_total_monotone(wm: Map<u128, Wdl>, pm: Map<u128, Penta>, e: usize, j: nat, k: nat)
    requires
        j <= k,
    ensures
        wdl_row_total(wm, e, j) <= wdl_row_total(wm, e, k),
        penta_row_total(pm, e, j) <= penta_row_total(pm, e, k),
    decreases k,
{
    if j < k {
        lemma_row_total_monotone(wm, pm, e, j, (k - 1) as nat);
    }
}

impl StatsWrapper {
    /// Tallies for `engine_count` engines, with a sequential probability ratio
    /// test when `sprt` is set (which needs exactly two engines).
    pub fn new(engine_count: usize, sprt: bool) -> (r: StatsWrapper)
        requires
            sprt ==> engine_count == 2,
        ensures
            r.wf(),
            r.engines() == engine_count,
            r.sprt_enabled() == sprt,
            r.tickets() == 0,
            r.completed() == 0,
            !r.terminating(),
            r.pending() == Map::<u64, PendingHalf>::empty(),
            forall|a: usize, b: usize| #[trigger] r.wdl(a, b) == (Wdl { w: 0, d: 0, l: 0 }),
            forall|a: usize, b: usize| #[trigger] r.penta(a, b) == Penta::spec_zero(),
    {
        let r = StatsWrapper {
            engine_count,
            wdl_board: HashMap::new(),
            penta_board: HashMap::new(),
            pending_pairing: HashMap::new(),
            sprt,
            match_ticket_count: 0,
            match_complete_count: 0,
            should_terminate: false,
        };
        assert forall|e: usize| #[trigger]
            wdl_row_total(r.wdl_board@, e, engine_count as nat) <= 0 by {
            lemma_rows_of_empty(e, engine_count as nat);
        }
        assert forall|e: usize| #[trigger]
            penta_row_total(r.penta_board@, e, engine_count as nat) <= 0 by {
            lemma_rows_of_empty(e, engine_count as nat);
        }
        assert(wdl_bounded(r.wdl_board@, engine_count, 0));
        r
    }

    /// Adds the game with winner `result` to the tally of `a` against `b`.
    fn add_wdl(&mut self, a: usize, b: usize, result: Option<Color>)
        requires
            wdl_cell(old(self).wdl_board@, a, b).total() < u64::MAX,
        ensures
            final(self).wdl_board@ == old(self).wdl_board@.insert(
                pair_key(a, b),
                wdl_cell(old(self).wdl_board@, a, b).spec_add(wdl_of(result)),
            ),
            final(self).penta_board@ == old(self).penta_board@,
            final(self).pending_pairing@ == old(self).pending_pairing@,
            final(self).engine_count == old(self).engine_count,
            final(self).sprt == old(self).sprt,
            final(self).match_ticket_count == old(self).match_ticket_count,
            final(self).match_complete_count == old(self).match_complete_count,
            final(self).should_terminate == old(self).should_terminate,
    {
        let wdl = match result {
            Some(Color::Sente) => Wdl::one_win(),
            None => Wdl::one_draw(),
            Some(Color::Gote) => Wdl::one_loss(),
        };
        let key = make_pair_key(a, b);
        let old_value = match self.wdl_board.get(&key) {
            Some(v) => *v,
            None => Wdl::zero(),
        };
        self.wdl_board.insert(key, old_value.add(wdl));
    }

    /// Adds the pair tally `penta` to `(a, b)` and its mirror to `(b, a)`.
    fn add_penta_pair(&mut self, a: usize, b: usize, penta: Penta)
        requires
            penta.total() == 1,
            penta_cell(old(self).penta_board@, a, b).total() + 2 < u64::MAX,
            penta_cell(old(self).penta_board@, b, a).total() + 2 < u64::MAX,
        ensures
            ({
                let m1 = old(self).penta_board@.insert(
                    pair_key(a, b),
                    penta_cell(old(self).penta_board@, a, b).spec_add(penta),
                );
                final(self).penta_board@ == m1.insert(
                    pair_key(b, a),
                    penta_cell(m1, b, a).spec_add(penta.spec_flip()),
                )
            }),
            final(self).wdl_board@ == old(self).wdl_board@,
            final(self).pending_pairing@ == old(self).pending_pairing@,
            final(self).engine_count == old(self).engine_count,
            final(self).sprt == old(self).sprt,
            final(self).match_ticket_count == old(self).match_ticket_count,
            final(self).match_complete_count == old(self).match_complete_count,
            final(self).should_terminate == old(self).should_terminate,
    {
        let k1 = make_pair_key(a, b);
        let v1 = match self.penta_board.get(&k1) {
            Some(v) => *v,
            None => Penta::zero(),
        };
        self.penta_board.insert(k1, v1.add(penta));
        let k2 = make_pair_key(b, a);
        let v2 = match self.penta_board.get(&k2) {
            Some(v) => *v,
            None => Penta::zero(),
        };
        proof {
            lemma_pair_key_injective(a, b, b, a);
        }
        let flipped = penta.flip();
        self.penta_board.insert(k2, v2.add(flipped));
    }
}

} // verus!

verus! {

/// `m` with a game of `a` against `b` won by `r` (seen from `a` playing
/// Sente) added to both mirrored tallies.
pub open spec fn wdl_after(m: Map<u128, Wdl>, a: usize, b: usize, r: Option<Color>) -> Map<u128, Wdl> {
    let m1 = m.insert(pair_key(a, b), wdl_cell(m, a, b).spec_add(wdl_of(r)));
    m1.insert(pair_key(b, a), wdl_cell(m1, b, a).spec_add(wdl_of(flip_result(r))))
}

/// `m` with the pair tally `p` added for `a` against `b`, and its mirror for
/// `b` against `a`.
pub open spec fn penta_after(m: Map<u128, Penta>, a: usize, b: usize, p: Penta) -> Map<u128, Penta> {
    let m1 = m.insert(pair_key(a, b), penta_cell(m, a, b).spec_add(p));
    m1.insert(pair_key(b, a), penta_cell(m1, b, a).spec_add(p.spec_flip()))
}

/// The tallies of every pair mirror each other.
pub open spec fn wdl_mirrored(m: Map<u128, Wdl>) -> bool {
    forall|a: usize, b: usize| #[trigger] wdl_cell(m, a, b) == wdl_cell(m, b, a).spec_flip()
}

/// The pair tallies of every pair mirror each other.
pub open spec fn penta_mirrored(m: Map<u128, Penta>) -> bool {
    forall|a: usize, b: usize| #[trigger] penta_cell(m, a, b) == penta_cell(m, b, a).spec_flip()
}

/// Every tally and every row of `n` tallies holds at most `bound` games.
pub open spec fn wdl_bounded(m: Map<u128, Wdl>, n: usize, bound: nat) -> bool {
    &&& forall|a: usize, b: usize| #[trigger] wdl_cell(m, a, b).total() <= bound
    &&& forall|e: usize| #[trigger] wdl_row_total(m, e, n as nat) <= bound
}

/// Every pair tally and every row of `n` pair tallies holds at most `bound` pairs.
pub open spec fn penta_bounded(m: Map<u128, Penta>, n: usize, bound: nat) -> bool {
    &&& forall|a: usize, b: usize| #[trigger] penta_cell(m, a, b).total() <= bound
    &&& forall|e: usize| #[trigger] penta_row_total(m, e, n as nat) <= bound
}

/// Adding a game keeps the tallies mirrored and within two more games.
proof fn lemma_wdl_after(m: Map<u128, Wdl>, a: usize, b: usize, r: Option<Color>, n: usize, bound: nat)
    requires
        wdl_mirrored(m),
        wdl_bounded(m, n, bound),
        bound + 2 <= u64::MAX,
    ensures
        wdl_mirrored(wdl_after(m, a, b, r)),
        wdl_bounded(wdl_after(m, a, b, r), n, bound + 2),
{
    let w = wdl_of(r);
    let fw = wdl_of(flip_result(r));
    let m1 = m.insert(pair_key(a, b), wdl_cell(m, a, b).spec_add(w));
    let m2 = wdl_after(m, a, b, r);
    lemma_pair_key_injective(a, b, b, a);
    assert(wdl_cell(m, a, b) == wdl_cell(m, b, a).spec_flip());
    assert(wdl_cell(m, a, b).total() <= bound);
    assert(wdl_cell(m, b, a).total() <= bound);
    assert forall|x: usize, y: usize| #[trigger]
        wdl_cell(m2, x, y) == wdl_cell(m2, y, x).spec_flip() by {
        lemma_pair_key_injective(x, y, a, b);
        lemma_pair_key_injective(x, y, b, a);
        lemma_pair_key_injective(y, x, a, b);
        lemma_pair_key_injective(y, x, b, a);
        assert(wdl_cell(m, x, y) == wdl_cell(m, y, x).spec_flip());
    }
    assert forall|x: usize, y: usize| #[trigger] wdl_cell(m2, x, y).total() <= bound + 2 by {
        lemma_pair_key_injective(x, y, a, b);
        lemma_pair_key_injective(x, y, b, a);
        assert(wdl_cell(m, x, y).total() <= bound);
    }
    assert forall|e: usize| #[trigger] wdl_row_total(m2, e, n as nat) <= bound + 2 by {
        lemma_wdl_row_total_insert(m, a, b, wdl_cell(m, a, b).spec_add(w), e, n as nat);
        lemma_wdl_row_total_insert(m1, b, a, wdl_cell(m1, b, a).spec_add(fw), e, n as nat);
        assert(wdl_row_total(m, e, n as nat) <= bound);
    }
}

/// Adding a pair keeps the pair tallies mirrored and within two more pairs.
proof fn lemma_penta_after(m: Map<u128, Penta>, a: usize, b: usize, p: Penta, n: usize, bound: nat)
    requires
        penta_mirrored(m),
        penta_bounded(m, n, bound),
        p.total() == 1,
        bound + 2 <= u64::MAX,
    ensures
        penta_mirrored(penta_after(m, a, b, p)),
        penta_bounded(penta_after(m, a, b, p), n, bound + 2),
{
    let m1 = m.insert(pair_key(a, b), penta_cell(m, a, b).spec_add(p));
    let m2 = penta_after(m, a, b, p);
    lemma_pair_key_injective(a, b, b, a);
    assert(penta_cell(m, a, b) == penta_cell(m, b, a).spec_flip());
    assert(penta_cell(m, a, b).total() <= bound);
    assert(penta_cell(m, b, a).total() <= bound);
    assert forall|x: usize, y: usize| #[trigger]
        penta_cell(m2, x, y) == penta_cell(m2, y, x).spec_flip() by {
        lemma_pair_key_injective(x, y, a, b);
        lemma_pair_key_injective(x, y, b, a);
        lemma_pair_key_injective(y, x, a, b);
        lemma_pair_key_injective(y, x, b, a);
        assert(penta_cell(m, x, y) == penta_cell(m, y, x).spec_flip());
    }
    assert forall|x: usize, y: usize| #[trigger] penta_cell(m2, x, y).total() <= bound + 2 by {
        lemma_pair_key_injective(x, y, a, b);
        lemma_pair_key_injective(x, y, b, a);
        assert(penta_cell(m, x, y).total() <= bound);
    }
    assert forall|e: usize| #[trigger] penta_row_total(m2, e, n as nat) <= bound + 2 by {
        lemma_penta_row_total_insert(m, a, b, penta_cell(m, a, b).spec_add(p), e, n as nat);
        lemma_penta_row_total_insert(m1, b, a, penta_cell(m1, b, a).spec_add(p.spec_flip()), e, n as nat);
        assert(penta_row_total(m, e, n as nat) <= bound);
    }
}

} // verus!

verus! {

impl StatsWrapper {
    /// Adds a game of `a` (Sente) against `b` won by `result` to both tallies,
    /// and to the pair tallies once its sibling game is in.
    fn add_result(&mut self, match_id: u64, a: usize, b: usize, result: Option<Color>)
        requires
            old(self).wf(),
            old(self).match_complete_count < u64::MAX / 2,
            old(self).pending_pairing@.contains_key(match_id ^ 1) ==> old(
                self,
            ).pending_pairing@[match_id ^ 1].engines == (b, a),
        ensures
            final(self).wdl_board@ == wdl_after(old(self).wdl_board@, a, b, result),
            wdl_mirrored(final(self).wdl_board@),
            penta_mirrored(final(self).penta_board@),
            wdl_bounded(
                final(self).wdl_board@,
                final(self).engine_count,
                (2 * old(self).match_complete_count + 2) as nat,
            ),
            penta_bounded(
                final(self).penta_board@,
                final(self).engine_count,
                (2 * old(self).match_complete_count + 2) as nat,
            ),
            old(self).pending_pairing@.contains_key(match_id ^ 1) ==> {
                &&& final(self).penta_board@ == penta_after(
                    old(self).penta_board@,
                    a,
                    b,
                    penta_of(result, flip_result(old(self).pending_pairing@[match_id ^ 1].result)),
                )
                &&& final(self).pending_pairing@ == old(self).pending_pairing@.remove(match_id ^ 1)
            },
            !old(self).pending_pairing@.contains_key(match_id ^ 1) ==> {
                &&& final(self).penta_board@ == old(self).penta_board@
                &&& final(self).pending_pairing@ == old(self).pending_pairing@.insert(
                    match_id,
                    PendingHalf { engines: (a, b), result },
                )
            },
            final(self).engine_count == old(self).engine_count,
            final(self).sprt == old(self).sprt,
            final(self).match_ticket_count == old(self).match_ticket_count,
            final(self).match_complete_count == old(self).match_complete_count,
            final(self).should_terminate == old(self).should_terminate,
    {
        let ghost m0 = self.wdl_board@;
        let ghost bound = 2 * self.match_complete_count as nat;
        proof {
            lemma_wdl_after(m0, a, b, result, self.engine_count, bound);
            lemma_pair_key_injective(a, b, b, a);
        }
        self.add_wdl(a, b, result);
        let flipped = match result {
            Some(c) => Some(c.flip()),
            None => None,
        };
        self.add_wdl(b, a, flipped);
        self.add_penta_half(match_id, a, b, result);
    }

    /// Holds the first game of a pair until its sibling (the match numbered
    /// `match_id ^ 1`) is in, then adds the pair to the pair tallies.
    fn add_penta_half(&mut self, match_id: u64, a: usize, b: usize, result1: Option<Color>)
        requires
            penta_mirrored(old(self).penta_board@),
            penta_bounded(
                old(self).penta_board@,
                old(self).engine_count,
                2 * old(self).match_complete_count as nat,
            ),
            old(self).match_complete_count < u64::MAX / 2,
            old(self).pending_pairing@.contains_key(match_id ^ 1) ==> old(
                self,
            ).pending_pairing@[match_id ^ 1].engines == (b, a),
        ensures
            penta_mirrored(final(self).penta_board@),
            penta_bounded(
                final(self).penta_board@,
                final(self).engine_count,
                (2 * old(self).match_complete_count + 2) as nat,
            ),
            old(self).pending_pairing@.contains_key(match_id ^ 1) ==> {
                &&& final(self).penta_board@ == penta_after(
                    old(self).penta_board@,
                    a,
                    b,
                    penta_of(result1, flip_result(old(self).pending_pairing@[match_id ^ 1].result)),
                )
                &&& final(self).pending_pairing@ == old(self).pending_pairing@.remove(match_id ^ 1)
            },
            !old(self).pending_pairing@.contains_key(match_id ^ 1) ==> {
                &&& final(self).penta_board@ == old(self).penta_board@
                &&& final(self).pending_pairing@ == old(self).pending_pairing@.insert(
                    match_id,
                    PendingHalf { engines: (a, b), result: result1 },
                )
            },
            final(self).wdl_board@ == old(self).wdl_board@,
            final(self).engine_count == old(self).engine_count,
            final(self).sprt == old(self).sprt,
            final(self).match_ticket_count == old(self).match_ticket_count,
            final(self).match_complete_count == old(self).match_complete_count,
            final(self).should_terminate == old(self).should_terminate,
    {
        let sibling = match_id ^ 1;
        let ghost bound = 2 * self.match_complete_count as nat;
        match self.pending_pairing.remove(&sibling) {
            Some(half) => {
                let result2 = match half.result {
                    Some(c) => Some(c.flip()),
                    None => None,
                };
                let penta = match (result1, result2) {
                    (Some(Color::Sente), Some(Color::Sente)) => Penta { ww: 1, ..Penta::zero() },
                    (Some(Color::Sente), None) | (None, Some(Color::Sente)) => Penta {
                        wd: 1,
                        ..Penta::zero()
                    },
                    (None, None) => Penta { dd: 1, ..Penta::zero() },
                    (Some(Color::Gote), Some(Color::Sente)) | (
                        Some(Color::Sente),
                        Some(Color::Gote),
                    ) => Penta { wl: 1, ..Penta::zero() },
                    (Some(Color::Gote), None) | (None, Some(Color::Gote)) => Penta {
                        dl: 1,
                        ..Penta::zero()
                    },
                    (Some(Color::Gote), Some(Color::Gote)) => Penta { ll: 1, ..Penta::zero() },
                };
                proof {
                    lemma_penta_after(self.penta_board@, a, b, penta, self.engine_count, bound);
                    assert(penta_cell(self.penta_board@, a, b).total() <= bound);
                    assert(penta_cell(self.penta_board@, b, a).total() <= bound);
                }
                self.add_penta_pair(a, b, penta);
            },
            None => {
                self.pending_pairing.insert(match_id, PendingHalf { engines: (a, b), result: result1 });
            },
        }
    }
}

} // verus!

verus! {

impl StatsWrapper {
    /// The sum of the tallies of `engine_id` against every engine.
    pub fn all_wdl_for(&self, engine_id: usize) -> (r: Wdl)
        requires
            self.wf(),
        ensures
            r == self.wdl_total_for(engine_id),
            r.total() <= 2 * self.completed(),
    {
        let n = self.engine_count;
        let ghost m = self.wdl_board@;
        let ghost bound = 2 * self.match_complete_count as nat;
        let mut acc = Wdl::zero();
        let mut i: usize = 0;
        while i < n
            invariant
                n == self.engine_count,
                m == self.wdl_board@,
                self.wf(),
                bound == 2 * self.match_complete_count as nat,
                i <= n,
                acc == wdl_row(m, engine_id, i as nat),
                acc.total() == wdl_row_total(m, engine_id, i as nat),
                wdl_row_total(m, engine_id, i as nat) <= bound,
            decreases n - i,
        {
            proof {
                lemma_row_total_monotone(m, self.penta_board@, engine_id, (i + 1) as nat, n as nat);
            }
            let key = make_pair_key(engine_id, i);
            let cell = match self.wdl_board.get(&key) {
                Some(v) => *v,
                None => Wdl::zero(),
            };
            acc = acc.add(cell);
            i = i + 1;
        }
        acc
    }

    /// The sum of the game-pair tallies of `engine_id` against every engine.
    pub fn all_penta_for(&self, engine_id: usize) -> (r: Penta)
        requires
            self.wf(),
        ensures
            r == self.penta_total_for(engine_id),
            r.total() <= 2 * self.completed(),
    {
        let n = self.engine_count;
        let ghost m = self.penta_board@;
        let ghost bound = 2 * self.match_complete_count as nat;
        let mut acc = Penta::zero();
        let mut i: usize = 0;
        while i < n
            invariant
                n == self.engine_count,
                m == self.penta_board@,
                self.wf(),
                bound == 2 * self.match_complete_count as nat,
                i <= n,
                acc == penta_row(m, engine_id, i as nat),
                acc.total() == penta_row_total(m, engine_id, i as nat),
                penta_row_total(m, engine_id, i as nat) <= bound,
            decreases n - i,
        {
            proof {
                lemma_row_total_monotone(self.wdl_board@, m, engine_id, (i + 1) as nat, n as nat);
            }
            let key = make_pair_key(engine_id, i);
            let cell = match self.penta_board.get(&key) {
                Some(v) => *v,
                None => Penta::zero(),
            };
            acc = acc.add(cell);
            i = i + 1;
        }
        acc
    }

    /// Counts a match handed out.
    fn next(&mut self)
        requires
            old(self).match_ticket_count < u64::MAX,
        ensures
            final(self).match_ticket_count == old(self).match_ticket_count + 1,
            final(self).wdl_board@ == old(self).wdl_board@,
            final(self).penta_board@ == old(self).penta_board@,
            final(self).pending_pairing@ == old(self).pending_pairing@,
            final(self).engine_count == old(self).engine_count,
            final(self).sprt == old(self).sprt,
            final(self).match_complete_count == old(self).match_complete_count,
            final(self).should_terminate == old(self).should_terminate,
    {
        self.match_ticket_count = self.match_ticket_count + 1;
    }

    /// Whether no more matches may be handed out.
    pub fn next_should_terminate(&self) -> (r: bool)
        ensures
            r == self.terminating(),
    {
        self.should_terminate
    }

    /// Counts a completed match; when the test still runs, returns the pair
    /// tally of the first engine, on which it must decide now.
    fn match_complete(&mut self) -> (r: Option<Penta>)
        requires
            wdl_mirrored(old(self).wdl_board@),
            penta_mirrored(old(self).penta_board@),
            wdl_bounded(
                old(self).wdl_board@,
                old(self).engine_count,
                (2 * old(self).match_complete_count + 2) as nat,
            ),
            penta_bounded(
                old(self).penta_board@,
                old(self).engine_count,
                (2 * old(self).match_complete_count + 2) as nat,
            ),
            old(self).match_complete_count < u64::MAX / 2,
            old(self).sprt ==> old(self).engine_count == 2,
        ensures
            final(self).wf(),
            final(self).match_complete_count == old(self).match_complete_count + 1,
            final(self).wdl_board@ == old(self).wdl_board@,
            final(self).penta_board@ == old(self).penta_board@,
            final(self).pending_pairing@ == old(self).pending_pairing@,
            final(self).engine_count == old(self).engine_count,
            final(self).sprt == old(self).sprt,
            final(self).match_ticket_count == old(self).match_ticket_count,
            final(self).should_terminate == old(self).should_terminate,
            r == (if old(self).sprt && !old(self).should_terminate {
                Some(final(self).penta_total_for(0))
            } else {
                None
            }),
    {
        self.match_complete_count = self.match_complete_count + 1;
        if self.sprt && !self.should_terminate {
            // The test is on the first engine.
            Some(self.all_penta_for(0))
        } else {
            None
        }
    }

    /// Whether every match handed out has come back after the test decided.
    pub fn match_completete_should_terminate(&self) -> (r: bool)
        ensures
            r == (self.terminating() && self.tickets() == self.completed()),
    {
        self.should_terminate && self.match_ticket_count == self.match_complete_count
    }

    /// Asks to hand out another match: refused once the test has decided,
    /// otherwise counted.
    pub fn next_ticket(&mut self) -> (r: bool)
        requires
            old(self).tickets() < u64::MAX,
        ensures
            r == !old(self).terminating(),
            final(self).tickets() == (if r {
                old(self).tickets() + 1
            } else {
                old(self).tickets() as int
            }),
            final(self).wdl_map() == old(self).wdl_map(),
            final(self).penta_map() == old(self).penta_map(),
            final(self).pending() == old(self).pending(),
            final(self).engines() == old(self).engines(),
            final(self).sprt_enabled() == old(self).sprt_enabled(),
            final(self).completed() == old(self).completed(),
            final(self).terminating() == old(self).terminating(),
            old(self).wf() ==> final(self).wf(),
    {
        if self.next_should_terminate() {
            false
        } else {
            self.next();
            true
        }
    }

    /// Records a completed match: `engines` are the Sente and Gote engines of
    /// its ticket and `winner` the side that won. Returns the pair tally of
    /// the first engine when the test still runs and must decide on it now
    /// (see `apply_sprt_verdict`).
    ///
    /// The count of completed matches stays below `u64::MAX / 2`: an engine
    /// entered against itself gets both sides of each such game in its row,
    /// so its totals (`all_wdl_for`, `all_penta_for`), held in `u64`, grow by
    /// two per match; past that count they would overflow.
    pub fn record_match(&mut self, match_id: u64, engines: [usize; 2], winner: Option<Color>) -> (r:
        Option<Penta>)
        requires
            old(self).wf(),
            old(self).completed() < u64::MAX / 2,
            old(self).pending().contains_key(match_id ^ 1) ==> old(self).pending()[match_id
                ^ 1].engines == (engines[1], engines[0]),
        ensures
            final(self).wf(),
            final(self).completed() == old(self).completed() + 1,
            final(self).wdl_map() == wdl_after(old(self).wdl_map(), engines[0], engines[1], winner),
            old(self).pending().contains_key(match_id ^ 1) ==> {
                &&& final(self).penta_map() == penta_after(
                    old(self).penta_map(),
                    engines[0],
                    engines[1],
                    penta_of(winner, flip_result(old(self).pending()[match_id ^ 1].result)),
                )
                &&& final(self).pending() == old(self).pending().remove(match_id ^ 1)
            },
            !old(self).pending().contains_key(match_id ^ 1) ==> {
                &&& final(self).penta_map() == old(self).penta_map()
                &&& final(self).pending() == old(self).pending().insert(
                    match_id,
                    PendingHalf { engines: (engines[0], engines[1]), result: winner },
                )
            },
            final(self).engines() == old(self).engines(),
            final(self).sprt_enabled() == old(self).sprt_enabled(),
            final(self).tickets() == old(self).tickets(),
            final(self).terminating() == old(self).terminating(),
            r == (if old(self).sprt_enabled() && !old(self).terminating() {
                Some(final(self).penta_total_for(0))
            } else {
                None
            }),
            engines[0] != engines[1] && engines[0] < old(self).engines() && engines[1] < old(
                self,
            ).engines() ==> row_totals_after_game(*old(self), *final(self), engines[0], engines[1], winner),
            engines[0] != engines[1] && engines[0] < old(self).engines() && engines[1] < old(
                self,
            ).engines() ==> pair_totals_after_game(
                *old(self),
                *final(self),
                match_id,
                engines[0],
                engines[1],
                winner,
            ),
    {
        self.add_result(match_id, engines[0], engines[1], winner);
        let r = self.match_complete();
        proof {
            let a = engines[0];
            let b = engines[1];
            if a != b && a < old(self).engines() && b < old(self).engines() {
                assert forall|x: usize| x != a && x != b implies #[trigger] self.wdl_total_for(x)
                    == old(self).wdl_total_for(x) by {
                    lemma_record_row_sums(old(self), self, a, b, winner, x);
                }
                lemma_record_row_sums(old(self), self, a, b, winner, a);
                if old(self).pending().contains_key(match_id ^ 1) {
                    let p = penta_of(winner, flip_result(old(self).pending()[match_id ^ 1].result));
                    lemma_pair_completes(old(self).penta_map(), a, b, winner, flip_result(old(self).pending()[match_id ^ 1].result));
                    assert forall|x: usize| x != a && x != b implies #[trigger] self.penta_total_for(x)
                        == old(self).penta_total_for(x) by {
                        lemma_pair_row_sums(old(self), self, a, b, p, x);
                    }
                    lemma_pair_row_sums(old(self), self, a, b, p, a);
                }
            }
        }
        r
    }

    /// The number of matches handed out.
    pub fn tickets_handed_out(&self) -> (r: u64)
        ensures
            r == self.tickets(),
    {
        self.match_ticket_count
    }

    /// Whether the result of match `match_id`, played by `engines`, can be
    /// recorded: the count of completed matches has room, and if the other
    /// game of its pair is held back, that game had the same engines with the
    /// colours reversed.
    pub fn accepts_result(&self, match_id: u64, engines: [usize; 2]) -> (r: bool)
        ensures
            r == (self.completed() < u64::MAX / 2 && (self.pending().contains_key(match_id ^ 1)
                ==> self.pending()[match_id ^ 1].engines == (engines[1], engines[0]))),
    {
        if self.match_complete_count >= u64::MAX / 2 {
            return false;
        }
        match self.pending_pairing.get(&(match_id ^ 1)) {
            Some(half) => half.engines.0 == engines[1] && half.engines.1 == engines[0],
            None => true,
        }
    }

    /// Takes the test's decision on the tally that `record_match` returned:
    /// once it says stop, no more matches are handed out.
    pub fn apply_sprt_verdict(&mut self, stop: bool)
        requires
            old(self).wf(),
        ensures
            final(self).wf(),
            final(self).terminating() == (old(self).terminating() || stop),
            final(self).wdl_map() == old(self).wdl_map(),
            final(self).penta_map() == old(self).penta_map(),
            final(self).pending() == old(self).pending(),
            final(self).engines() == old(self).engines(),
            final(self).sprt_enabled() == old(self).sprt_enabled(),
            final(self).tickets() == old(self).tickets(),
            final(self).completed() == old(self).completed(),
    {
        if !self.should_terminate {
            self.should_terminate = stop;
        }
    }

    /// The state of the tournament after a match, given the state that the
    /// rest of the tournament reports: stop once the test has decided and
    /// every match handed out has come back.
    pub fn completion_state(&self, inner: TournamentState) -> (r: TournamentState)
        ensures
            r == (if self.terminating() && self.tickets() == self.completed() {
                TournamentState::Stop
            } else {
                inner
            }),
    {
        if self.match_completete_should_terminate() {
            TournamentState::Stop
        } else {
            inner
        }
    }
}

} // verus!

verus! {

/// What engine `a` won against `b` is what `b` lost against `a`, for single
/// games and for game pairs alike.
pub proof fn lemma_tallies_mirror(s: &StatsWrapper, a: usize, b: usize)
    requires
        s.wf(),
    ensures
        s.wdl(a, b) == s.wdl(b, a).spec_flip(),
        s.penta(a, b) == s.penta(b, a).spec_flip(),
{
    assert(wdl_cell(s.wdl_board@, a, b) == wdl_cell(s.wdl_board@, b, a).spec_flip());
    assert(penta_cell(s.penta_board@, a, b) == penta_cell(s.penta_board@, b, a).spec_flip());
}

/// After a game of `a` (Sente) against `b` (Gote) that `winner` won, the
/// totals of `a` have one more game (a win, draw or loss), those of `b` the
/// same game seen from the other side, and those of every other engine are
/// unchanged.
pub open spec fn row_totals_after_game(
    before: StatsWrapper,
    after: StatsWrapper,
    a: usize,
    b: usize,
    winner: Option<Color>,
) -> bool {
    &&& after.wdl_total_for(a) == before.wdl_total_for(a).spec_add(wdl_of(winner))
    &&& after.wdl_total_for(b) == before.wdl_total_for(b).spec_add(wdl_of(flip_result(winner)))
    &&& forall|x: usize| x != a && x != b ==> #[trigger] after.wdl_total_for(x) == before.wdl_total_for(x)
}

/// After game `match_id` of `a` against `b`: when it completes a pair, the
/// pair totals of `a` have that pair added, those of `b` the pair seen from
/// the other side, and those of every other engine are unchanged; when it is
/// the first game of its pair, no pair total changes.
pub open spec fn pair_totals_after_game(
    before: StatsWrapper,
    after: StatsWrapper,
    match_id: u64,
    a: usize,
    b: usize,
    winner: Option<Color>,
) -> bool {
    if before.pending().contains_key(match_id ^ 1) {
        let p = penta_of(winner, flip_result(before.pending()[match_id ^ 1].result));
        &&& after.penta_total_for(a) == before.penta_total_for(a).spec_add(p)
        &&& after.penta_total_for(b) == before.penta_total_for(b).spec_add(p.spec_flip())
        &&& forall|x: usize| x != a && x != b ==> #[trigger] after.penta_total_for(x) == before.penta_total_for(x)
    } else {
        forall|x: usize| #[trigger] after.penta_total_for(x) == before.penta_total_for(x)
    }
}

/// A recorded game between two different engines adds exactly one game to
/// the tally of each against the other: a win for the winner and a loss for
/// the loser, or a draw for both; no other tally changes.
pub proof fn lemma_record_adds_one_game(
    before: Map<u128, Wdl>,
    a: usize,
    b: usize,
    winner: Option<Color>,
    x: usize,
    y: usize,
)
    requires
        a != b,
    ensures
        ({
            let after = wdl_after(before, a, b, winner);
            &&& wdl_cell(after, a, b) == wdl_cell(before, a, b).spec_add(wdl_of(winner))
            &&& wdl_cell(after, b, a) == wdl_cell(before, b, a).spec_add(
                wdl_of(winner).spec_flip(),
            )
            &&& wdl_of(winner).total() == 1
            &&& (!((x == a && y == b) || (x == b && y == a)) ==> wdl_cell(after, x, y) == wdl_cell(
                before,
                x,
                y,
            ))
        }),
{
    lemma_pair_key_injective(a, b, b, a);
    lemma_pair_key_injective(x, y, a, b);
    lemma_pair_key_injective(x, y, b, a);
}

/// The second game of a pair (the sibling of a game held back) adds exactly
/// one pair to the pair tally of each engine against the other, mirrored.
pub proof fn lemma_pair_completes(
    before: Map<u128, Penta>,
    a: usize,
    b: usize,
    r1: Option<Color>,
    r2: Option<Color>,
)
    requires
        a != b,
    ensures
        ({
            let after = penta_after(before, a, b, penta_of(r1, r2));
            &&& penta_cell(after, a, b) == penta_cell(before, a, b).spec_add(penta_of(r1, r2))
            &&& penta_cell(after, b, a) == penta_cell(before, b, a).spec_add(
                penta_of(r1, r2).spec_flip(),
            )
            &&& penta_of(r1, r2).total() == 1
            &&& penta_of(r1, r2).spec_flip() == penta_of(flip_result(r1), flip_result(r2))
        }),
{
    lemma_pair_key_injective(a, b, b, a);
}

/// `first` when both are equal, else `first - second` (the form in which a
/// head-to-head report shows a setting of each engine).
pub fn compare(first: String, second: String) -> (r: String)
    ensures
        r@ == (if first@ == second@ {
            first@
        } else {
            first@ + " - "@ + second@
        }),
{
    if first == second {
        first
    } else {
        let mut s = first;
        s.append(" - ");
        s.append(second.as_str());
        s
    }
}

} // verus!

verus! {

/// Adding `d` to the tally of `(a, b)` adds it to the row of `a`, when `b`
/// is among the opponents `0..k`, and changes no other row.
proof fn lemma_wdl_row_add(m: Map<u128, Wdl>, a: usize, b: usize, d: Wdl, e: usize, k: nat)
    requires
        k <= usize::MAX + 1,
        wdl_row_total(m, e, k) + d.total() <= u64::MAX,
    ensures
        wdl_row(m.insert(pair_key(a, b), wdl_cell(m, a, b).spec_add(d)), e, k) == (if e == a && b < k {
            wdl_row(m, e, k).spec_add(d)
        } else {
            wdl_row(m, e, k)
        }),
    decreases k,
{
    if k > 0 {
        let j = (k - 1) as nat;
        lemma_row_total_monotone(m, Map::empty(), e, j, k);
        lemma_wdl_row_add(m, a, b, d, e, j);
        lemma_pair_key_injective(a, b, e, j as usize);
        lemma_wdl_row_exact(m, e, j);
        lemma_wdl_row_exact(m, e, k);
    }
}

/// Adding `p` to the pair tally of `(a, b)` adds it to the row of `a`, when
/// `b` is among the opponents `0..k`, and changes no other row.
#[verifier::rlimit(40)]
proof fn lemma_penta_row_add(m: Map<u128, Penta>, a: usize, b: usize, p: Penta, e: usize, k: nat)
    requires
        k <= usize::MAX + 1,
        penta_row_total(m, e, k) + p.total() <= u64::MAX,
    ensures
        penta_row(m.insert(pair_key(a, b), penta_cell(m, a, b).spec_add(p)), e, k) == (if e == a && b
            < k {
            penta_row(m, e, k).spec_add(p)
        } else {
            penta_row(m, e, k)
        }),
    decreases k,
{
    if k > 0 {
        let j = (k - 1) as nat;
        lemma_row_total_monotone(Map::empty(), m, e, j, k);
        lemma_penta_row_add(m, a, b, p, e, j);
        lemma_pair_key_injective(a, b, e, j as usize);
        lemma_penta_row_exact(m, e, j);
        lemma_penta_row_exact(m, e, k);
        let r = penta_row(m, e, j);
        let c = penta_cell(m, e, j as usize);
        assert(r.total() + c.total() + p.total() <= u64::MAX);
        let m2 = m.insert(pair_key(a, b), penta_cell(m, a, b).spec_add(p));
        if e == a && b == j {
            assert(penta_cell(m2, e, j as usize) == c.spec_add(p));
            assert(penta_row(m2, e, k) == r.spec_add(c.spec_add(p)));
            assert(r.spec_add(c.spec_add(p)) == r.spec_add(c).spec_add(p));
        } else if e == a && b < j {
            assert(penta_cell(m2, e, j as usize) == c);
            assert(penta_row(m2, e, k) == r.spec_add(p).spec_add(c));
            assert(r.spec_add(p).spec_add(c) == r.spec_add(c).spec_add(p));
        } else {
            assert(penta_cell(m2, e, j as usize) == c);
        }
    }
}

/// A recorded game between two different engines of the tournament adds one
/// game to the totals of each: a win for the winner and a loss for the
/// loser, or a draw for both; the totals of every other engine stay.
pub proof fn lemma_record_row_sums(
    before: &StatsWrapper,
    after: &StatsWrapper,
    a: usize,
    b: usize,
    winner: Option<Color>,
    e: usize,
)
    requires
        before.wf(),
        before.completed() < u64::MAX / 2,
        after.wdl_map() == wdl_after(before.wdl_map(), a, b, winner),
        after.engines() == before.engines(),
        a != b,
        a < before.engines(),
        b < before.engines(),
    ensures
        after.wdl_total_for(a) == before.wdl_total_for(a).spec_add(wdl_of(winner)),
        after.wdl_total_for(b) == before.wdl_total_for(b).spec_add(wdl_of(flip_result(winner))),
        e != a && e != b ==> after.wdl_total_for(e) == before.wdl_total_for(e),
{
    let m = before.wdl_board@;
    let n = before.engine_count as nat;
    let d1 = wdl_of(winner);
    let d2 = wdl_of(flip_result(winner));
    let m1 = m.insert(pair_key(a, b), wdl_cell(m, a, b).spec_add(d1));
    let bound = 2 * before.match_complete_count as nat;
    assert(wdl_row_total(m, e, n) <= bound);
    assert(wdl_row_total(m, a, n) <= bound);
    assert(wdl_row_total(m, b, n) <= bound);
    lemma_wdl_row_add(m, a, b, d1, e, n);
    lemma_wdl_row_add(m, a, b, d1, a, n);
    lemma_wdl_row_add(m, a, b, d1, b, n);
    lemma_wdl_row_total_insert(m, a, b, wdl_cell(m, a, b).spec_add(d1), e, n);
    lemma_wdl_row_total_insert(m, a, b, wdl_cell(m, a, b).spec_add(d1), a, n);
    lemma_wdl_row_total_insert(m, a, b, wdl_cell(m, a, b).spec_add(d1), b, n);
    assert(wdl_cell(m, a, b).total() <= bound);
    lemma_wdl_row_add(m1, b, a, d2, e, n);
    lemma_wdl_row_add(m1, b, a, d2, a, n);
    lemma_wdl_row_add(m1, b, a, d2, b, n);
}

/// The second game of a pair between two different engines of the
/// tournament adds one pair to the pair totals of each (mirrored for the
/// second engine); the pair totals of every other engine stay.
pub proof fn lemma_pair_row_sums(
    before: &StatsWrapper,
    after: &StatsWrapper,
    a: usize,
    b: usize,
    p: Penta,
    e: usize,
)
    requires
        before.wf(),
        before.completed() < u64::MAX / 2,
        after.penta_map() == penta_after(before.penta_map(), a, b, p),
        after.engines() == before.engines(),
        p.total() == 1,
        a != b,
        a < before.engines(),
        b < before.engines(),
    ensures
        after.penta_total_for(a) == before.penta_total_for(a).spec_add(p),
        after.penta_total_for(b) == before.penta_total_for(b).spec_add(p.spec_flip()),
        e != a && e != b ==> after.penta_total_for(e) == before.penta_total_for(e),
{
    let m = before.penta_board@;
    let n = before.engine_count as nat;
    let m1 = m.insert(pair_key(a, b), penta_cell(m, a, b).spec_add(p));
    let bound = 2 * before.match_complete_count as nat;
    assert(penta_row_total(m, e, n) <= bound);
    assert(penta_row_total(m, a, n) <= bound);
    assert(penta_row_total(m, b, n) <= bound);
    lemma_penta_row_add(m, a, b, p, e, n);
    lemma_penta_row_add(m, a, b, p, a, n);
    lemma_penta_row_add(m, a, b, p, b, n);
    lemma_penta_row_total_insert(m, a, b, penta_cell(m, a, b).spec_add(p), e, n);
    lemma_penta_row_total_insert(m, a, b, penta_cell(m, a, b).spec_add(p), a, n);
    lemma_penta_row_total_insert(m, a, b, penta_cell(m, a, b).spec_add(p), b, n);
    assert(penta_cell(m, a, b).total() <= bound);
    lemma_penta_row_add(m1, b, a, p.spec_flip(), e, n);
    lemma_penta_row_add(m1, b, a, p.spec_flip(), a, n);
    lemma_penta_row_add(m1, b, a, p.spec_flip(), b, n);
}

} // verus!

verus! {

/// Half-points of one game for the engine: 2 for a win, 1 for a draw, 0 for
/// a loss.
pub open spec fn game_half_points(r: Option<Color>) -> int {
    match r {
        Some(Color::Sente) => 2,
        None => 1,
        Some(Color::Gote) => 0,
    }
}

/// Half-points of a tallied pair: 4 for two wins, 3 for a win and a draw, 2
/// for two draws or a win and a loss, 1 for a draw and a loss, 0 for two
/// losses.
pub open spec fn pair_half_points(p: Penta) -> int {
    4 * p.ww + 3 * p.wd + 2 * p.wl + 2 * p.dd + p.dl
}

/// A pair is tallied once, in the category its two results give together,
/// whichever game came back first: its points are those of the two games,
/// and it is a win and a loss (not two draws) exactly when neither game was
/// drawn. So a win with a draw is counted as such, in either order.
pub proof fn lemma_pair_category(r1: Option<Color>, r2: Option<Color>)
    ensures
        penta_of(r1, r2) == penta_of(r2, r1),
        penta_of(r1, r2).total() == 1,
        pair_half_points(penta_of(r1, r2)) == game_half_points(r1) + game_half_points(r2),
        game_half_points(r1) + game_half_points(r2) == 2 ==> (penta_of(r1, r2).wl == 1 <==> (r1 is Some
            && r2 is Some)),
        penta_of(flip_result(r1), flip_result(r2)) == penta_of(r1, r2).spec_flip(),
{
}

/// Half-points of a tallied game: 2 for a win, 1 for a draw.
pub open spec fn wdl_half_points(w: Wdl) -> int {
    2 * w.w + w.d
}

/// A game is tallied once, as a win for the first engine when Sente won, a
/// loss when Gote won and a draw otherwise; the second engine gets the same
/// game with win and loss exchanged.
pub proof fn lemma_game_category(r: Option<Color>)
    ensures
        wdl_of(r).total() == 1,
        wdl_half_points(wdl_of(r)) == game_half_points(r),
        wdl_of(flip_result(r)) == wdl_of(r).spec_flip(),
        (wdl_of(r).d == 1) <==> r is None,
{
}

} // verus!
