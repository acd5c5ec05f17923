use shogitest::shogi::Color;
use shogitest::stats::{penta_string, Penta, Wdl};
use shogitest::tournament::stats_wrapper::{compare, StatsWrapper};
use shogitest::tournament::TournamentState;

fn wdl(w: u64, d: u64, l: u64) -> Wdl {
    Wdl { w, d, l }
}

fn penta(ll: u64, dl: u64, wl: u64, dd: u64, wd: u64, ww: u64) -> Penta {
    Penta { ll, dl, wl, dd, wd, ww }
}

#[test]
fn a_new_tournament_has_empty_tallies() {
    let s = StatsWrapper::new(3, false);
    for e in 0..3 {
        assert_eq!(s.all_wdl_for(e), wdl(0, 0, 0));
        assert_eq!(s.all_penta_for(e), Penta::zero());
    }
    assert!(!s.next_should_terminate());
}

#[test]
fn a_game_is_a_win_for_one_engine_and_a_loss_for_the_other() {
    let mut s = StatsWrapper::new(2, false);
    assert_eq!(s.record_match(0, [0, 1], Some(Color::Sente)), None);
    assert_eq!(s.all_wdl_for(0), wdl(1, 0, 0));
    assert_eq!(s.all_wdl_for(1), wdl(0, 0, 1));
    // The first game of a pair adds no pair yet.
    assert_eq!(s.all_penta_for(0), Penta::zero());

    // The colours are reversed in the second game; Gote (engine 0) wins.
    s.record_match(1, [1, 0], Some(Color::Gote));
    assert_eq!(s.all_wdl_for(0), wdl(2, 0, 0));
    assert_eq!(s.all_wdl_for(1), wdl(0, 0, 2));
    assert_eq!(s.all_penta_for(0), penta(0, 0, 0, 0, 0, 1));
    assert_eq!(s.all_penta_for(1), penta(1, 0, 0, 0, 0, 0));
}

#[test]
fn a_split_pair_counts_as_win_loss_for_both() {
    let mut s = StatsWrapper::new(2, false);
    s.record_match(4, [0, 1], Some(Color::Sente));
    s.record_match(5, [1, 0], Some(Color::Sente));
    assert_eq!(s.all_wdl_for(0), wdl(1, 0, 1));
    assert_eq!(s.all_wdl_for(1), wdl(1, 0, 1));
    assert_eq!(s.all_penta_for(0), penta(0, 0, 1, 0, 0, 0));
    assert_eq!(s.all_penta_for(1), penta(0, 0, 1, 0, 0, 0));
}

#[test]
fn a_draw_and_a_win_make_a_win_draw_pair() {
    let mut s = StatsWrapper::new(2, false);
    // The second game of the pair may come back first.
    s.record_match(3, [1, 0], None);
    s.record_match(2, [0, 1], Some(Color::Sente));
    assert_eq!(s.all_wdl_for(0), wdl(1, 1, 0));
    assert_eq!(s.all_penta_for(0), penta(0, 0, 0, 0, 1, 0));
    assert_eq!(s.all_penta_for(1), penta(0, 1, 0, 0, 0, 0));
}

#[test]
fn tallies_of_three_engines_mirror_each_other() {
    let mut s = StatsWrapper::new(3, false);
    s.record_match(0, [0, 2], None);
    s.record_match(1, [2, 0], None);
    s.record_match(2, [1, 2], Some(Color::Gote));
    s.record_match(3, [2, 1], Some(Color::Sente));
    assert_eq!(s.all_wdl_for(0), wdl(0, 2, 0));
    assert_eq!(s.all_wdl_for(1), wdl(0, 0, 2));
    assert_eq!(s.all_wdl_for(2), wdl(2, 2, 0));
    assert_eq!(s.all_penta_for(0), penta(0, 0, 0, 1, 0, 0));
    assert_eq!(s.all_penta_for(1), penta(1, 0, 0, 0, 0, 0));
    assert_eq!(s.all_penta_for(2), penta(0, 0, 0, 1, 0, 1));
}

#[test]
fn the_test_decides_on_the_first_engine_and_then_stops_handing_out_matches() {
    let mut s = StatsWrapper::new(2, true);
    assert!(s.next_ticket());
    assert!(s.next_ticket());
    assert_eq!(s.record_match(0, [0, 1], None), Some(Penta::zero()));
    s.apply_sprt_verdict(false);
    assert!(!s.next_should_terminate());
    assert_eq!(s.completion_state(TournamentState::Continue), TournamentState::Continue);

    let pair = s.record_match(1, [1, 0], Some(Color::Gote));
    assert_eq!(pair, Some(penta(0, 0, 0, 0, 1, 0)));
    s.apply_sprt_verdict(true);
    assert!(s.next_should_terminate());
    assert!(!s.next_ticket());
    // Both matches handed out have come back.
    assert!(s.match_completete_should_terminate());
    assert_eq!(s.completion_state(TournamentState::Continue), TournamentState::Stop);
}

#[test]
fn the_test_waits_for_matches_still_running() {
    let mut s = StatsWrapper::new(2, true);
    assert!(s.next_ticket());
    assert!(s.next_ticket());
    assert!(s.next_ticket());
    s.record_match(0, [0, 1], Some(Color::Sente));
    s.record_match(1, [1, 0], Some(Color::Gote));
    s.apply_sprt_verdict(true);
    assert!(!s.match_completete_should_terminate());
    assert_eq!(s.completion_state(TournamentState::Continue), TournamentState::Continue);
    // Once decided, the test is not asked again.
    assert_eq!(s.record_match(2, [0, 1], None), None);
    assert_eq!(s.completion_state(TournamentState::Continue), TournamentState::Stop);
    // A verdict to go on does not undo the decision.
    s.apply_sprt_verdict(false);
    assert!(s.next_should_terminate());
}

#[test]
fn without_a_test_the_inner_state_decides() {
    let mut s = StatsWrapper::new(2, false);
    assert!(s.next_ticket());
    assert_eq!(s.record_match(0, [0, 1], None), None);
    assert_eq!(s.completion_state(TournamentState::Stop), TournamentState::Stop);
    assert_eq!(s.completion_state(TournamentState::Continue), TournamentState::Continue);
}

#[test]
fn compares_settings_of_two_engines() {
    assert_eq!(compare("10+0.1".to_string(), "10+0.1".to_string()), "10+0.1");
    assert_eq!(compare("1".to_string(), "2".to_string()), "1 - 2");
}

#[test]
fn flipping_a_tally_twice_gives_it_back() {
    let w = wdl(3, 2, 1);
    assert_eq!(w.flip(), wdl(1, 2, 3));
    assert_eq!(w.flip().flip(), w);
    let p = penta(1, 2, 3, 4, 5, 6);
    assert_eq!(p.flip(), penta(6, 5, 3, 4, 2, 1));
    assert_eq!(p.flip().flip(), p);
    assert_eq!(w.add(w.flip()), wdl(4, 4, 4));
    assert_eq!(w.game_count(), 6);
    assert_eq!(p.pair_count(), 21);
}

#[test]
fn pair_tallies_are_written_with_split_and_drawn_pairs_together() {
    assert_eq!(penta_string(&penta(1, 2, 3, 4, 5, 6)), "[1, 2, 7, 5, 6]");
    assert_eq!(penta_string(&Penta::zero()), "[0, 0, 0, 0, 0]");
    assert_eq!(
        penta_string(&penta(0, 0, u64::MAX, u64::MAX, 0, 0)),
        "[0, 0, 36893488147419103230, 0, 0]"
    );
}
