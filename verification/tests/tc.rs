use shogitest::shogi::Color;
use shogitest::tc::{parse_base_ms, parse_seconds_ms, to_usi_string, EngineTime, StepResult, TimeControl};

#[test]
fn parses_fischer_time_controls() {
    assert_eq!(
        TimeControl::parse("10+0.1"),
        Some(TimeControl::Fischer { base: 10000, increment: 100 })
    );
    assert_eq!(
        TimeControl::parse("1:30+2"),
        Some(TimeControl::Fischer { base: 90000, increment: 2000 })
    );
    assert_eq!(
        TimeControl::parse("600+2"),
        Some(TimeControl::Fischer { base: 600000, increment: 2000 })
    );
    assert_eq!(
        TimeControl::parse("60"),
        Some(TimeControl::Fischer { base: 60000, increment: 0 })
    );
}

#[test]
fn parses_byoyomi_movetime_and_nodes() {
    assert_eq!(
        TimeControl::parse("1:00,10"),
        Some(TimeControl::Byoyomi { base: 60000, byoyomi: 10000 })
    );
    assert_eq!(
        TimeControl::parse("0,5.25"),
        Some(TimeControl::Byoyomi { base: 0, byoyomi: 5250 })
    );
    assert_eq!(TimeControl::parse("movetime=1.5"), Some(TimeControl::MoveTime(1500)));
    assert_eq!(TimeControl::parse("N=5000"), Some(TimeControl::Nodes(5000)));
}

#[test]
fn rejects_malformed_time_controls() {
    assert_eq!(TimeControl::parse(""), None);
    assert_eq!(TimeControl::parse("abc"), None);
    assert_eq!(TimeControl::parse("10+"), None);
    assert_eq!(TimeControl::parse("10+0.1234"), None);
    assert_eq!(TimeControl::parse("N=-1"), None);
    assert_eq!(TimeControl::parse("movetime="), None);
    assert_eq!(TimeControl::parse("1:2:3"), None);
}

#[test]
fn reads_decimal_seconds_as_milliseconds() {
    assert_eq!(parse_seconds_ms("0.1"), Some(100));
    assert_eq!(parse_seconds_ms("0.05"), Some(50));
    assert_eq!(parse_seconds_ms("2.005"), Some(2005));
    assert_eq!(parse_seconds_ms("7"), Some(7000));
    assert_eq!(parse_seconds_ms("."), None);
    assert_eq!(parse_seconds_ms("1."), None);
    assert_eq!(parse_seconds_ms("18446744073709552"), None);
    assert_eq!(parse_base_ms("2:03.5"), Some(123500));
    assert_eq!(parse_base_ms(":3"), None);
}

#[test]
fn a_new_clock_is_full() {
    let t = EngineTime::new(TimeControl::Fischer { base: 10000, increment: 100 }, 50);
    assert_eq!(t.remaining(), Some(10000));
    assert_eq!(t.bestmove_timeout(), Some(10050));
    let m = EngineTime::new(TimeControl::MoveTime(1000), 20);
    assert_eq!(m.remaining(), None);
    assert_eq!(m.bestmove_timeout(), Some(1020));
    let n = EngineTime::new(TimeControl::Nodes(1000), 20);
    assert_eq!(n.bestmove_timeout(), None);
}

#[test]
fn a_move_in_time_is_charged_and_earns_the_increment() {
    let mut t = EngineTime::new(TimeControl::Fischer { base: 10000, increment: 100 }, 50);
    assert_eq!(t.step(3000), StepResult::InTime);
    assert_eq!(t.remaining(), Some(7100));
    // Within the margin: the clock empties, then gets the increment.
    assert_eq!(t.step(7150), StepResult::InTime);
    assert_eq!(t.remaining(), Some(100));
}

#[test]
fn a_move_over_the_limit_loses_on_time() {
    let mut t = EngineTime::new(TimeControl::Fischer { base: 1000, increment: 0 }, 10);
    assert_eq!(t.step(1011), StepResult::TimeElapsed);
    assert_eq!(t.remaining(), Some(0));
    let mut b = EngineTime::new(TimeControl::Byoyomi { base: 1000, byoyomi: 500 }, 0);
    assert_eq!(b.bestmove_timeout(), Some(1500));
    assert_eq!(b.step(1200), StepResult::InTime);
    assert_eq!(b.remaining(), Some(0));
    assert_eq!(b.bestmove_timeout(), Some(500));
    assert_eq!(b.step(501), StepResult::TimeElapsed);
}

#[test]
fn a_clock_without_limit_never_runs_out() {
    let mut t = EngineTime::new(TimeControl::Unlimited, 0);
    assert_eq!(t.step(u64::MAX), StepResult::InTime);
    assert_eq!(t, EngineTime::new(TimeControl::Unlimited, 0));
}

#[test]
fn writes_go_arguments_for_the_side_to_move() {
    let fischer = |base| EngineTime::new(TimeControl::Fischer { base, increment: 2000 }, 0);
    assert_eq!(
        to_usi_string(Color::Sente, &fischer(60000), &fischer(30000)),
        "btime 60000 binc 2000 wtime 30000 winc 2000"
    );
    assert_eq!(
        to_usi_string(Color::Gote, &fischer(60000), &fischer(30000)),
        "wtime 30000 winc 2000 btime 60000 binc 2000"
    );
    let byoyomi = EngineTime::new(TimeControl::Byoyomi { base: 60000, byoyomi: 5000 }, 0);
    assert_eq!(
        to_usi_string(Color::Sente, &byoyomi, &byoyomi),
        "btime 60000 wtime 60000 byoyomi 5000"
    );
    let movetime = EngineTime::new(TimeControl::MoveTime(1000), 0);
    assert_eq!(to_usi_string(Color::Gote, &movetime, &movetime), "movetime 1000");
    let nodes = EngineTime::new(TimeControl::Nodes(5000), 0);
    assert_eq!(to_usi_string(Color::Sente, &nodes, &nodes), "nodes 5000");
    let none = EngineTime::new(TimeControl::Unlimited, 0);
    assert_eq!(to_usi_string(Color::Sente, &none, &none), "infinite");
}

#[test]
fn writes_time_controls_the_way_they_are_read() {
    let cases = [
        (TimeControl::Fischer { base: 10000, increment: 100 }, "10+0.1"),
        (TimeControl::Fischer { base: 600000, increment: 2000 }, "600+2"),
        (TimeControl::Fischer { base: 1, increment: 1010 }, "0.001+1.01"),
        (TimeControl::Byoyomi { base: 60000, byoyomi: 5250 }, "60,5.25"),
        (TimeControl::MoveTime(1500), "movetime=1.5"),
        (TimeControl::Nodes(5000), "N=5000"),
        (TimeControl::Unlimited, "none"),
    ];
    for (tc, text) in cases {
        assert_eq!(tc.to_string(), text);
        if tc != TimeControl::Unlimited {
            assert_eq!(TimeControl::parse(text), Some(tc));
        }
    }
    let big = TimeControl::Fischer { base: u64::MAX, increment: 999 };
    assert_eq!(TimeControl::parse(&big.to_string()), Some(big));
}
