use shogitest::cli::{check_engine_cpus, check_engine_cpus_with_limit, engine_cpus};
use shogitest::tournament::round_robin::RoundRobin;
use shogitest::tournament::stats_wrapper::StatsWrapper;
use shogitest::tournament::TournamentState;
use shogitest::shogi::Color;

fn openings() -> Vec<String> {
    vec!["startpos".to_string(), "sfen a b - 1".to_string(), "sfen c w - 1".to_string()]
}

#[test]
fn pairs_play_both_colours_in_a_row() {
    let mut rr = RoundRobin::new(2, 2, Some(2), openings(), 1);
    let tickets: Vec<_> = std::iter::from_fn(|| rr.next()).collect();
    let seen: Vec<(u64, [usize; 2], &str)> =
        tickets.iter().map(|t| (t.id, t.engines, t.opening.as_str())).collect();
    assert_eq!(
        seen,
        vec![
            (0, [0, 1], "startpos"),
            (1, [1, 0], "startpos"),
            (2, [0, 1], "sfen a b - 1"),
            (3, [1, 0], "sfen a b - 1"),
        ]
    );
    assert_eq!(rr.expected_maximum_match_count(), Some(4));
}

#[test]
fn every_pair_plays_each_round() {
    let mut rr = RoundRobin::new(3, 2, Some(1), openings(), 3);
    let tickets: Vec<_> = std::iter::from_fn(|| rr.next()).collect();
    let engines: Vec<[usize; 2]> = tickets.iter().map(|t| t.engines).collect();
    assert_eq!(engines, vec![[0, 1], [1, 0], [0, 2], [2, 0], [1, 2], [2, 1]]);
    // The book starts at its third opening.
    assert!(tickets.iter().all(|t| t.opening == "sfen c w - 1"));
    assert_eq!(rr.expected_maximum_match_count(), Some(6));
    for t in &tickets {
        // The two games of a pair differ in the last bit of their numbers.
        let sibling = &tickets[(t.id ^ 1) as usize];
        assert_eq!(sibling.engines, [t.engines[1], t.engines[0]]);
        assert_eq!(sibling.opening, t.opening);
    }
}

#[test]
fn openings_turn_round_by_round() {
    let mut rr = RoundRobin::new(2, 4, None, openings(), 2);
    let tickets: Vec<_> = (0..16).map(|_| rr.next().unwrap()).collect();
    let rounds: Vec<&str> = tickets.iter().step_by(4).map(|t| t.opening.as_str()).collect();
    assert_eq!(rounds, vec!["sfen a b - 1", "sfen c w - 1", "startpos", "sfen a b - 1"]);
    assert_eq!(tickets[2].engines, [0, 1]);
    assert_eq!(tickets[3].engines, [1, 0]);
    assert_eq!(rr.expected_maximum_match_count(), None);
}

#[test]
fn the_tournament_stops_when_every_match_is_back() {
    let mut rr = RoundRobin::new(2, 2, Some(1), openings(), 1);
    assert!(rr.next().is_some());
    assert!(rr.next().is_some());
    assert!(rr.next().is_none());
    assert_eq!(rr.outstanding(), 2);
    assert_eq!(rr.match_complete(), TournamentState::Continue);
    assert_eq!(rr.match_complete(), TournamentState::Stop);
    assert_eq!(rr.outstanding(), 0);

    let mut endless = RoundRobin::new(2, 2, None, openings(), 1);
    endless.next();
    assert_eq!(endless.match_complete(), TournamentState::Continue);
}

#[test]
fn pins_each_engine_of_each_slot_to_its_own_cpus() {
    let cpus: Vec<usize> = vec![10, 11, 12, 13, 14, 15];
    let threads = vec![2, 1];
    assert_eq!(engine_cpus(&cpus, &threads, 0, 0), vec![10, 11]);
    assert_eq!(engine_cpus(&cpus, &threads, 0, 1), vec![12]);
    assert_eq!(engine_cpus(&cpus, &threads, 1, 0), vec![13, 14]);
    assert_eq!(engine_cpus(&cpus, &threads, 1, 1), vec![15]);
}

#[test]
fn checks_the_cpus_of_an_engine() {
    assert_eq!(
        check_engine_cpus_with_limit(&vec![], 1024).unwrap_err(),
        "Engine CPU affinity must not be empty"
    );
    assert_eq!(
        check_engine_cpus_with_limit(&vec![3, 1024, 2000], 1024).unwrap_err(),
        "CPU 1024 exceeds Linux CPU_SETSIZE 1024"
    );
    assert!(check_engine_cpus_with_limit(&vec![0, 1023], 1024).is_ok());
    assert!(check_engine_cpus(&vec![0]).is_ok());
}

#[test]
fn refuses_a_result_whose_pair_had_other_engines() {
    let mut s = StatsWrapper::new(3, false);
    assert!(s.accepts_result(0, [0, 1]));
    s.record_match(0, [0, 1], Some(Color::Sente));
    assert!(s.accepts_result(1, [1, 0]));
    assert!(!s.accepts_result(1, [2, 0]));
    assert!(!s.accepts_result(1, [0, 1]));
    assert_eq!(s.tickets_handed_out(), 0);
    assert!(s.next_ticket());
    assert_eq!(s.tickets_handed_out(), 1);
}
