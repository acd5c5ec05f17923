use shogitest::cli::{AdjudicationOptions, DrawAdjudicationOptions, EngineOptions, PonderMode};
use shogitest::engine::{MoveRecord, Score};
use shogitest::match_flow::{MatchAction, MatchEvent, MatchFlow};
use shogitest::runner::{command_with_arguments, go_command, position_command, record_move, stop_timeout, Runner};
use shogitest::shogi::{Color, Game, GameOutcome, Move};
use shogitest::tc::TimeControl;
use shogitest::tournament::{MatchResult, MatchTicket};

fn mv(s: &str) -> Move {
    Move::parse(s).unwrap()
}

#[test]
fn waits_for_a_stopped_search_at_most_five_seconds() {
    assert_eq!(stop_timeout(None), 5000);
    assert_eq!(stop_timeout(Some(60000)), 5000);
    assert_eq!(stop_timeout(Some(300)), 300);
}

#[test]
fn writes_position_and_go_commands() {
    let mut game = Game::new("startpos");
    assert_eq!(position_command(&game), "position startpos");
    game.do_move(mv("7g7f"));
    assert_eq!(position_command(&game), "position startpos moves 7g7f");
    assert_eq!(go_command("infinite"), "go infinite");
    assert_eq!(command_with_arguments("ponderhit", ""), "ponderhit");
    assert_eq!(command_with_arguments("go ponder", "nodes 5"), "go ponder nodes 5");
}

#[test]
fn reports_every_interval() {
    let r = Runner::new(vec![], 1, AdjudicationOptions::default(), Some(10));
    assert!(r.report_due(20));
    assert!(!r.report_due(21));
    let quiet = Runner::new(vec![], 1, AdjudicationOptions::default(), None);
    assert!(!quiet.report_due(10));
}

fn new_result() -> MatchResult {
    MatchResult {
        ticket: MatchTicket { id: 0, engines: [0, 1], opening: "startpos".to_string() },
        game_start: 0,
        outcome: GameOutcome::Undetermined,
        moves: vec![],
    }
}

fn record(stm: Color, score: Score) -> MoveRecord {
    MoveRecord { stm: Some(stm), score, ..MoveRecord::default() }
}

#[test]
fn a_move_over_time_loses_and_the_move_limit_draws() {
    let adj = AdjudicationOptions { max_moves: Some(2), draw: None, resign: None };
    let mut mr = new_result();
    record_move(&mut mr, record(Color::Sente, Score::Unset), GameOutcome::Undetermined, true, Color::Sente, &adj);
    assert_eq!(mr.outcome, GameOutcome::LossByClock(Color::Sente));
    assert_eq!(mr.moves.len(), 1);

    let mut mr = new_result();
    record_move(&mut mr, record(Color::Sente, Score::Unset), GameOutcome::Undetermined, false, Color::Sente, &adj);
    assert_eq!(mr.outcome, GameOutcome::Undetermined);
    record_move(&mut mr, record(Color::Gote, Score::Unset), GameOutcome::Undetermined, false, Color::Gote, &adj);
    assert_eq!(mr.outcome, GameOutcome::DrawByMoveLimit);
}

#[test]
fn quiet_scores_draw_after_the_move_number() {
    let adj = AdjudicationOptions {
        max_moves: None,
        draw: Some(DrawAdjudicationOptions { move_number: 2, move_count: 2, score: 10 }),
        resign: None,
    };
    let mut mr = new_result();
    let scores = [Score::Cp(5), Score::Cp(-30), Score::Cp(0), Score::Cp(9)];
    let mut stm = Color::Sente;
    let mut outcomes = vec![];
    for s in scores {
        record_move(&mut mr, record(stm, s), GameOutcome::Undetermined, false, stm, &adj);
        outcomes.push(mr.outcome);
        stm = stm.flip();
    }
    assert_eq!(
        outcomes,
        vec![
            GameOutcome::Undetermined,
            GameOutcome::Undetermined,
            GameOutcome::Undetermined,
            GameOutcome::DrawByAdjudication
        ]
    );
}

fn options(tc: TimeControl, ponder_mode: PonderMode) -> Vec<EngineOptions> {
    let e = EngineOptions { time_control: tc, ponder_mode, time_margin: 100, ..EngineOptions::default() };
    vec![e.clone(), e]
}

fn ticket(opening: &str) -> MatchTicket {
    MatchTicket { id: 3, engines: [1, 0], opening: opening.to_string() }
}

fn best(m: &str, ponder: Option<&str>) -> MoveRecord {
    MoveRecord { m: mv(m), ponder: ponder.map(mv), ..MoveRecord::default() }
}

fn prepared(flow: &mut MatchFlow) -> MatchAction {
    flow.next(MatchEvent::Done);
    flow.next(MatchEvent::Done)
}

#[test]
fn a_match_starts_by_getting_both_engines_ready() {
    let opts = options(TimeControl::MoveTime(1000), PonderMode::Off);
    let (mut flow, first) = MatchFlow::new(ticket("startpos"), &opts, AdjudicationOptions::default(), 7);
    assert_eq!(first, MatchAction::Prepare { engine: 1, restart: false });
    assert!(flow.commands().is_empty());
    assert_eq!(flow.next(MatchEvent::Done), MatchAction::Prepare { engine: 0, restart: false });
    assert_eq!(
        flow.next(MatchEvent::Done),
        MatchAction::Search { engine: 1, color: Color::Sente, timeout: Some(1100) }
    );
    assert_eq!(flow.commands(), vec!["position startpos", "go movetime 1000"]);
    assert!(!flow.accepts(&MatchEvent::Done));
    let result = flow.into_result();
    assert_eq!(result.game_start, 7);
    assert_eq!(result.ticket.id, 3);
}

#[test]
fn a_failure_to_get_ready_ends_the_match() {
    let opts = options(TimeControl::MoveTime(1000), PonderMode::Off);
    let (mut flow, _) = MatchFlow::new(ticket("startpos"), &opts, AdjudicationOptions::default(), 0);
    assert_eq!(flow.next(MatchEvent::Failed), MatchAction::Fail(0));
    assert!(!flow.accepts(&MatchEvent::Done));
}

#[test]
fn a_search_over_time_loses_and_restarts_the_engine() {
    let opts = options(TimeControl::MoveTime(1000), PonderMode::Off);
    let (mut flow, _) = MatchFlow::new(ticket("startpos"), &opts, AdjudicationOptions::default(), 0);
    prepared(&mut flow);
    assert_eq!(flow.next(MatchEvent::TimedOut), MatchAction::Restart { engine: 1 });
    assert_eq!(flow.next(MatchEvent::Done), MatchAction::Finish);
    assert_eq!(flow.into_result().outcome, GameOutcome::LossByClock(Color::Sente));
}

#[test]
fn a_move_that_took_too_long_loses_on_time() {
    let opts = options(TimeControl::MoveTime(1000), PonderMode::Off);
    let (mut flow, _) = MatchFlow::new(ticket("startpos"), &opts, AdjudicationOptions::default(), 0);
    prepared(&mut flow);
    assert_eq!(flow.next(MatchEvent::BestMove(best("7g7f", None), 1101)), MatchAction::Finish);
    let result = flow.into_result();
    assert_eq!(result.outcome, GameOutcome::LossByClock(Color::Sente));
    assert_eq!(result.moves[0].measured_time, 1101);
    assert_eq!(result.moves[0].stm, Some(Color::Sente));
}

#[test]
fn a_missed_ponder_is_charged_from_the_stop() {
    let opts = options(TimeControl::Fischer { base: 10000, increment: 0 }, PonderMode::Standard);
    let (mut flow, _) = MatchFlow::new(ticket("startpos"), &opts, AdjudicationOptions::default(), 0);
    prepared(&mut flow);
    assert_eq!(
        flow.next(MatchEvent::BestMove(best("7g7f", Some("3c3d")), 400)),
        MatchAction::StartPonder { engine: 1 }
    );
    assert_eq!(
        flow.commands(),
        vec!["position startpos moves 7g7f 3c3d", "go ponder btime 9600 binc 0 wtime 10000 winc 0"]
    );
    assert_eq!(
        flow.next(MatchEvent::Done),
        MatchAction::Search { engine: 0, color: Color::Gote, timeout: Some(10100) }
    );
    flow.next(MatchEvent::BestMove(best("8c8d", None), 300));
    // Sente pondered on 3c3d, Gote played 8c8d: the ponder is stopped.
    assert_eq!(flow.pending(), MatchAction::StopPonder { engine: 1, color: Color::Sente, timeout: 5000 });
    assert_eq!(flow.commands(), vec!["stop"]);
    assert_eq!(
        flow.next(MatchEvent::BestMove(best("2g2f", None), 50)),
        MatchAction::Search { engine: 1, color: Color::Sente, timeout: Some(9700) }
    );
    assert_eq!(
        flow.commands(),
        vec!["position startpos moves 7g7f 8c8d", "go btime 9600 binc 0 wtime 9700 winc 0"]
    );
    flow.next(MatchEvent::BestMove(best("2g2f", None), 100));
    let failed = flow.next(MatchEvent::Failed);
    // Gote's search fails; no ponder is under way, so only Gote's engine is
    // restarted, and the search's failure is reported.
    assert_eq!(failed, MatchAction::Restart { engine: 0 });
    assert_eq!(flow.next(MatchEvent::Done), MatchAction::Fail(0));
    let result = flow.into_result();
    assert_eq!(result.moves.len(), 3);
    assert_eq!(result.moves[2].measured_time, 150);
    assert_eq!(result.moves[2].time_left, Some(9450));
}

#[test]
fn a_hit_ponder_sends_ponderhit_with_the_clock_in_early_mode() {
    let opts = options(TimeControl::Byoyomi { base: 0, byoyomi: 3000 }, PonderMode::Early);
    let (mut flow, _) = MatchFlow::new(ticket("startpos"), &opts, AdjudicationOptions::default(), 0);
    prepared(&mut flow);
    flow.next(MatchEvent::BestMove(best("7g7f", Some("3c3d")), 10));
    assert_eq!(flow.commands(), vec!["position startpos moves 7g7f 3c3d", "go ponder"]);
    flow.next(MatchEvent::Done);
    flow.next(MatchEvent::BestMove(best("3c3d", None), 10));
    assert_eq!(
        flow.pending(),
        MatchAction::PonderHit { engine: 1, color: Color::Sente, timeout: Some(3100) }
    );
    assert_eq!(flow.commands(), vec!["ponderhit btime 0 wtime 0 byoyomi 3000"]);
}

#[test]
fn a_failed_restart_in_the_cleanup_is_the_error_reported() {
    let opts = options(TimeControl::Fischer { base: 10000, increment: 0 }, PonderMode::Standard);
    let (mut flow, _) = MatchFlow::new(ticket("startpos"), &opts, AdjudicationOptions::default(), 0);
    prepared(&mut flow);
    flow.next(MatchEvent::BestMove(best("7g7f", Some("3c3d")), 10));
    flow.next(MatchEvent::Done);
    // Gote's search fails while Sente ponders.
    assert_eq!(
        flow.next(MatchEvent::Failed),
        MatchAction::StopPonder { engine: 1, color: Color::Sente, timeout: 5000 }
    );
    assert_eq!(flow.next(MatchEvent::Disconnected), MatchAction::Restart { engine: 1 });
    assert_eq!(flow.next(MatchEvent::Failed), MatchAction::Restart { engine: 0 });
    assert_eq!(flow.next(MatchEvent::Failed), MatchAction::Fail(1));
}

#[test]
fn an_sfen_opening_may_give_gote_the_first_move() {
    let opts = options(TimeControl::Nodes(500), PonderMode::Off);
    let (mut flow, _) = MatchFlow::new(ticket("sfen 9/9/9/9/9/9/9/9/9 w - 1"), &opts, AdjudicationOptions::default(), 0);
    assert_eq!(
        prepared(&mut flow),
        MatchAction::Search { engine: 0, color: Color::Gote, timeout: None }
    );
    assert_eq!(flow.commands(), vec!["position sfen 9/9/9/9/9/9/9/9/9 w - 1", "go nodes 500"]);
}
