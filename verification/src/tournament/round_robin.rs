//! The order in which a round-robin tournament hands out its matches.
//!
//! Each round, every pair of engines plays the round's games, all from the
//! round's opening, the colours reversed from one game to the next, so that
//! the games of a pair have the match numbers `2k` and `2k + 1`.

use vstd::prelude::*;
use super::{MatchTicket, TournamentState};

verus! {

/// The schedule of a round-robin tournament.
pub struct RoundRobin {
    engine_count: usize,
    games_per_round: u64,
    rounds: Option<u64>,
    openings: Vec<String>,
    first_opening: usize,
    round: u64,
    first: usize,
    second: usize,
    game: u64,
    next_id: u64,
    completed: u64,
}

/// The schedule in mathematical form: its settings and the position of the
/// next match (round, engine pair, game of the pair, match number).
pub struct ScheduleView {
    pub engine_count: usize,
    pub games_per_round: u64,
    pub rounds: Option<u64>,
    pub openings: Seq<Seq<char>>,
    pub first_opening: usize,
    pub round: u64,
    pub first: usize,
    pub second: usize,
    pub game: u64,
    pub next_id: u64,
    /// How many of the matches handed out have come back.
    pub completed: u64,
}

/// The views of a list of strings.
pub open spec fn openings_view(v: Seq<String>) -> Seq<Seq<char>> {
    Seq::new(v.len(), |i: int| v[i]@)
}

impl View for RoundRobin {
    type V = ScheduleView;

    closed spec fn view(&self) -> ScheduleView {
        ScheduleView {
            engine_count: self.engine_count,
            games_per_round: self.games_per_round,
            rounds: self.rounds,
            openings: openings_view(self.openings@),
            first_opening: self.first_opening,
            round: self.round,
            first: self.first,
            second: self.second,
            game: self.game,
            next_id: self.next_id,
            completed: self.completed,
        }
    }
}

/// The invariant of a schedule.
pub open spec fn schedule_wf(v: ScheduleView) -> bool {
    &&& v.engine_count >= 2
    &&& v.first < v.second < v.engine_count
    &&& v.games_per_round >= 2 && v.games_per_round % 2 == 0
    &&& v.game < v.games_per_round
    &&& v.openings.len() > 0
    &&& v.first_opening < v.openings.len()
    &&& v.next_id % 2 == v.game % 2
    &&& v.game % 2 == 1 ==> v.next_id < u64::MAX
    &&& v.round <= v.next_id
    &&& v.completed <= v.next_id
}

/// No match is left: the rounds are played, or the match numbers run out
/// (a pair is only begun when both its numbers are free).
pub open spec fn exhausted(v: ScheduleView) -> bool {
    ||| (v.rounds matches Some(r) && v.round >= r)
    ||| (v.game % 2 == 0 && v.next_id >= u64::MAX - 1)
}

/// The opening of the current round: the book's openings in turn, from the
/// first one.
pub open spec fn opening_index(v: ScheduleView) -> int {
    (v.first_opening + v.round) % (v.openings.len() as int)
}

/// The engines of the next match: the pair in order for the even games of
/// the pair, reversed for the odd ones.
pub open spec fn next_engines(v: ScheduleView) -> [usize; 2] {
    if v.game % 2 == 0 {
        [v.first, v.second]
    } else {
        [v.second, v.first]
    }
}

/// The position after handing out a match: the next game of the pair, else
/// the next pair (by first engine, then second), else the next round.
pub open spec fn advance(v: ScheduleView) -> ScheduleView {
    let w = ScheduleView { next_id: (v.next_id + 1) as u64, ..v };
    if v.game + 1 < v.games_per_round {
        ScheduleView { game: (v.game + 1) as u64, ..w }
    } else if v.second + 1 < v.engine_count {
        ScheduleView { game: 0, second: (v.second + 1) as usize, ..w }
    } else if v.first + 2 < v.engine_count {
        ScheduleView { game: 0, first: (v.first + 1) as usize, second: (v.first + 2) as usize, ..w }
    } else {
        ScheduleView { game: 0, first: 0, second: 1, round: (v.round + 1) as u64, ..w }
    }
}

/// The number of unordered pairs of `n` engines.
pub open spec fn pair_count(n: nat) -> nat {
    (n * (n - 1) / 2) as nat
}

impl RoundRobin {
    /// The invariant of the schedule.
    pub open spec fn wf(&self) -> bool {
        schedule_wf(self@)
    }

    /// The schedule for `engine_count` engines playing `games_per_round`
    /// games per pair and round, for `rounds` rounds (no limit when `None`),
    /// taking the openings in turn from the one-based `start_index`.
    pub fn new(
        engine_count: usize,
        games_per_round: u64,
        rounds: Option<u64>,
        openings: Vec<String>,
        start_index: usize,
    ) -> (r: RoundRobin)
        requires
            engine_count >= 2,
            games_per_round >= 2,
            games_per_round % 2 == 0,
            openings@.len() > 0,
            start_index >= 1,
        ensures
            r.wf(),
            r@ == (ScheduleView {
                engine_count,
                games_per_round,
                rounds,
                openings: openings_view(openings@),
                first_opening: ((start_index - 1) % (openings@.len() as int)) as usize,
                round: 0,
                first: 0,
                second: 1,
                game: 0,
                next_id: 0,
                completed: 0,
            }),
    {
        let first_opening = (start_index - 1) % openings.len();
        RoundRobin {
            engine_count,
            games_per_round,
            rounds,
            openings,
            first_opening,
            round: 0,
            first: 0,
            second: 1,
            game: 0,
            next_id: 0,
            completed: 0,
        }
    }

    /// Hands out the next match, if any is left.
    pub fn next(&mut self) -> (r: Option<MatchTicket>)
        requires
            old(self).wf(),
        ensures
            final(self).wf(),
            match r {
                None => exhausted(old(self)@) && final(self)@ == old(self)@,
                Some(t) => {
                    &&& !exhausted(old(self)@)
                    &&& t.id == old(self)@.next_id
                    &&& t.engines == next_engines(old(self)@)
                    &&& t.opening@ == old(self)@.openings[opening_index(old(self)@)]
                    &&& final(self)@ == advance(old(self)@)
                },
            },
    {
        let done = match self.rounds {
            Some(r) => self.round >= r,
            None => false,
        };
        if done || (self.game % 2 == 0 && self.next_id >= u64::MAX - 1) {
            return None;
        }
        let len = self.openings.len();
        let index = ((self.first_opening as u128 + self.round as u128) % (len as u128)) as usize;
        let opening = self.openings[index].clone();
        let engines = if self.game % 2 == 0 {
            [self.first, self.second]
        } else {
            [self.second, self.first]
        };
        let ticket = MatchTicket { id: self.next_id, engines, opening };
        self.next_id = self.next_id + 1;
        if self.game + 1 < self.games_per_round {
            self.game = self.game + 1;
        } else if self.second + 1 < self.engine_count {
            self.game = 0;
            self.second = self.second + 1;
        } else if self.first + 2 < self.engine_count {
            self.game = 0;
            self.first = self.first + 1;
            self.second = self.first + 1;
        } else {
            self.game = 0;
            self.first = 0;
            self.second = 1;
            self.round = self.round + 1;
        }
        assert(self@ == advance(old(self)@));
        Some(ticket)
    }

    /// The number of matches handed out that have not come back.
    pub fn outstanding(&self) -> (r: u64)
        requires
            self.wf(),
        ensures
            r == self@.next_id - self@.completed,
    {
        self.next_id - self.completed
    }

    /// Counts a match that came back; the tournament stops once no match is
    /// left to hand out and every one handed out has come back.
    pub fn match_complete(&mut self) -> (r: TournamentState)
        requires
            old(self).wf(),
            old(self)@.completed < old(self)@.next_id,
        ensures
            final(self).wf(),
            final(self)@ == (ScheduleView { completed: (old(self)@.completed + 1) as u64, ..old(self)@ }),
            r == (if exhausted(final(self)@) && final(self)@.completed == final(self)@.next_id {
                TournamentState::Stop
            } else {
                TournamentState::Continue
            }),
    {
        self.completed = self.completed + 1;
        let done = match self.rounds {
            Some(r) => self.round >= r,
            None => false,
        };
        if (done || (self.game % 2 == 0 && self.next_id >= u64::MAX - 1)) && self.completed
            == self.next_id {
            TournamentState::Stop
        } else {
            TournamentState::Continue
        }
    }

    /// The number of matches the tournament hands out at most: rounds times
    /// pairs times games, when the rounds are limited and that fits.
    pub fn expected_maximum_match_count(&self) -> (r: Option<u64>)
        requires
            self.wf(),
        ensures
            match r {
                Some(c) => self@.rounds matches Some(k) && c == k * pair_count(
                    self@.engine_count as nat,
                ) * self@.games_per_round,
                None => self@.rounds is None || self@.rounds->0 * pair_count(
                    self@.engine_count as nat,
                ) * self@.games_per_round > u64::MAX,
            },
    {
        let k = match self.rounds {
            Some(k) => k,
            None => {
                return None;
            },
        };
        if k == 0 {
            assert(k * pair_count(self.engine_count as nat) * self.games_per_round == 0) by (nonlinear_arith)
                requires
                    k == 0,
            ;
            return Some(0);
        }
        let n = self.engine_count as u128;
        assert(n * (n - 1) <= u128::MAX) by (nonlinear_arith)
            requires
                1 <= n <= u64::MAX,
        ;
        let pairs: u128 = n * (n - 1) / 2;
        assert(pairs == pair_count(self.engine_count as nat)) by (nonlinear_arith)
            requires
                pairs == n * (n - 1) / 2,
                n == self.engine_count,
        ;
        if pairs > u64::MAX as u128 {
            proof {
                lemma_product_grows(k as nat, pairs as nat, self.games_per_round as nat);
            }
            return None;
        }
        match k.checked_mul(pairs as u64) {
            None => {
                proof {
                    lemma_product_grows2(k as nat * pairs as nat, self.games_per_round as nat);
                }
                None
            },
            Some(kp) => match kp.checked_mul(self.games_per_round) {
                None => None,
                Some(c) => Some(c),
            },
        }
    }
}

proof fn lemma_product_grows(k: nat, p: nat, g: nat)
    by (nonlinear_arith)
    requires
        p > u64::MAX,
        g >= 2,
        k >= 1,
    ensures
        k * p * g > u64::MAX,
{
}

proof fn lemma_product_grows2(x: nat, g: nat)
    by (nonlinear_arith)
    requires
        x > u64::MAX,
        g >= 2,
    ensures
        x * g > u64::MAX,
{
}

/// The two games of a pair are handed out one after the other: under the
/// match numbers `2k` and `2k + 1` (which differ in the last bit only), with
/// the same engines in reversed colours, from the same opening.
pub proof fn lemma_pair_games_reversed(v: ScheduleView)
    requires
        schedule_wf(v),
        !exhausted(v),
        v.game % 2 == 0,
    ensures
        !exhausted(advance(v)),
        advance(v).next_id == v.next_id + 1,
        v.next_id ^ 1u64 == advance(v).next_id,
        next_engines(advance(v))[0] == next_engines(v)[1],
        next_engines(advance(v))[1] == next_engines(v)[0],
        opening_index(advance(v)) == opening_index(v),
{
    let x = v.next_id;
    assert(x ^ 1u64 == x + 1) by (bit_vector)
        requires
            x % 2 == 0,
            x < u64::MAX,
    ;
}

/// Every match handed out leaves the schedule well formed, and the match
/// numbers count up from zero, one per match.
pub proof fn lemma_advance_wf(v: ScheduleView)
    requires
        schedule_wf(v),
        !exhausted(v),
    ensures
        schedule_wf(advance(v)),
        advance(v).next_id == v.next_id + 1,
{
}

} // verus!
