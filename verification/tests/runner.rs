use std::collections::VecDeque;

use shogitest::cli::{AdjudicationOptions, EngineOptions, PonderMode, ResignAdjudicationOptions};
use shogitest::engine::{MoveRecord, Score};
use shogitest::match_flow::{MatchAction, MatchEvent, MatchFlow};
use shogitest::runner::{do_adjudication, ponder_go_command, ponder_hit_command};
use shogitest::shogi::{Color, GameOutcome, Move};
use shogitest::tc::TimeControl;
use shogitest::tournament::{MatchResult, MatchTicket};

#[test]
fn builds_standard_ponder_commands() {
    let clocks = "btime 60000 wtime 30000 binc 2000 winc 2000";

    assert_eq!(
        ponder_go_command(PonderMode::Standard, clocks).as_deref(),
        Some("go ponder btime 60000 wtime 30000 binc 2000 winc 2000")
    );
    assert_eq!(
        ponder_hit_command(PonderMode::Standard, clocks),
        "ponderhit"
    );
}

#[test]
fn builds_early_ponder_commands() {
    let clocks = "btime 60000 wtime 30000 byoyomi 5000";

    assert_eq!(
        ponder_go_command(PonderMode::Early, clocks).as_deref(),
        Some("go ponder")
    );
    assert_eq!(
        ponder_hit_command(PonderMode::Early, clocks),
        "ponderhit btime 60000 wtime 30000 byoyomi 5000"
    );
}

#[test]
fn disables_ponder_commands_by_default() {
    assert_eq!(ponder_go_command(PonderMode::Off, "btime 1000"), None);
}

fn new_mr() -> MatchResult {
    MatchResult {
        ticket: MatchTicket {
            id: 0,
            engines: [0, 1],
            opening: "startpos".to_string(),
        },
        game_start: chrono::Utc::now().timestamp_millis(),
        outcome: GameOutcome::Undetermined,
        moves: vec![],
    }
}

fn append(mr: &mut MatchResult, stm: Color, score: Score) {
    mr.moves.push(MoveRecord {
        stm: Some(stm),
        score,
        ..MoveRecord::default()
    });
}

fn resign(two_sided: bool, move_count: usize, score: i32) -> AdjudicationOptions {
    AdjudicationOptions {
        max_moves: None,
        draw: None,
        resign: Some(ResignAdjudicationOptions {
            two_sided,
            move_count,
            score,
        }),
    }
}

#[test]
fn test_resign_1() {
    let mut mr = new_mr();
    append(&mut mr, Color::Sente, Score::Cp(1));
    append(&mut mr, Color::Gote, Score::Cp(-1));
    append(&mut mr, Color::Sente, Score::Cp(1));
    append(&mut mr, Color::Gote, Score::Cp(-1));
    append(&mut mr, Color::Sente, Score::Cp(1));
    append(&mut mr, Color::Gote, Score::Cp(-1));
    append(&mut mr, Color::Sente, Score::Cp(1000));
    append(&mut mr, Color::Gote, Score::Cp(-1000));
    append(&mut mr, Color::Sente, Score::Cp(1000));
    append(&mut mr, Color::Gote, Score::Cp(-1000));

    mr.outcome = GameOutcome::Undetermined;
    do_adjudication(Color::Gote, &resign(false, 1, 200), &mut mr);
    assert!(mr.outcome == GameOutcome::WinByAdjudication(Color::Sente));

    mr.outcome = GameOutcome::Undetermined;
    do_adjudication(Color::Gote, &resign(false, 2, 200), &mut mr);
    assert!(mr.outcome == GameOutcome::WinByAdjudication(Color::Sente));

    mr.outcome = GameOutcome::Undetermined;
    do_adjudication(Color::Gote, &resign(false, 3, 200), &mut mr);
    assert!(mr.outcome == GameOutcome::Undetermined);

    mr.outcome = GameOutcome::Undetermined;
    do_adjudication(Color::Gote, &resign(true, 2, 200), &mut mr);
    assert!(mr.outcome == GameOutcome::WinByAdjudication(Color::Sente));

    mr.outcome = GameOutcome::Undetermined;
    do_adjudication(Color::Gote, &resign(true, 4, 200), &mut mr);
    assert!(mr.outcome == GameOutcome::WinByAdjudication(Color::Sente));

    mr.outcome = GameOutcome::Undetermined;
    do_adjudication(Color::Gote, &resign(true, 6, 200), &mut mr);
    assert!(mr.outcome == GameOutcome::Undetermined);
}

#[test]
fn test_resign_2() {
    let mut mr = new_mr();
    append(&mut mr, Color::Sente, Score::Cp(1));
    append(&mut mr, Color::Gote, Score::Cp(-1));
    append(&mut mr, Color::Sente, Score::Cp(1));
    append(&mut mr, Color::Gote, Score::Cp(-1));
    append(&mut mr, Color::Sente, Score::Cp(1));
    append(&mut mr, Color::Gote, Score::Cp(-1));
    append(&mut mr, Color::Sente, Score::Cp(-1000));
    append(&mut mr, Color::Gote, Score::Cp(-1000));
    append(&mut mr, Color::Sente, Score::Cp(-1000));
    append(&mut mr, Color::Gote, Score::Cp(-1000));

    mr.outcome = GameOutcome::Undetermined;
    do_adjudication(Color::Gote, &resign(false, 2, 200), &mut mr);
    assert!(mr.outcome == GameOutcome::WinByAdjudication(Color::Sente));

    mr.outcome = GameOutcome::Undetermined;
    do_adjudication(Color::Gote, &resign(true, 2, 200), &mut mr);
    assert!(mr.outcome == GameOutcome::Undetermined);

    mr.outcome = GameOutcome::Undetermined;
    do_adjudication(Color::Gote, &resign(true, 4, 200), &mut mr);
    assert!(mr.outcome == GameOutcome::Undetermined);
}

#[test]
fn test_resign_3() {
    let mut mr = new_mr();
    append(&mut mr, Color::Sente, Score::Cp(1));
    append(&mut mr, Color::Gote, Score::Cp(-1));
    append(&mut mr, Color::Sente, Score::Cp(1));
    append(&mut mr, Color::Gote, Score::Cp(-1));
    append(&mut mr, Color::Sente, Score::Cp(1));
    append(&mut mr, Color::Gote, Score::Cp(-1));
    append(&mut mr, Color::Sente, Score::Cp(-1000));
    append(&mut mr, Color::Gote, Score::Mate(6));
    append(&mut mr, Color::Sente, Score::Cp(-1000));
    append(&mut mr, Color::Gote, Score::Mate(4));

    mr.outcome = GameOutcome::Undetermined;
    do_adjudication(Color::Gote, &resign(false, 2, 200), &mut mr);
    assert!(mr.outcome == GameOutcome::Undetermined);
}

#[test]
fn test_resign_4() {
    let mut mr = new_mr();
    append(&mut mr, Color::Sente, Score::Cp(1));
    append(&mut mr, Color::Gote, Score::Cp(-1));
    append(&mut mr, Color::Sente, Score::Cp(1));
    append(&mut mr, Color::Gote, Score::Cp(-1));
    append(&mut mr, Color::Sente, Score::Cp(1));
    append(&mut mr, Color::Gote, Score::Cp(-1));
    append(&mut mr, Color::Sente, Score::Cp(1000));
    append(&mut mr, Color::Gote, Score::Mate(-6));
    append(&mut mr, Color::Sente, Score::Cp(1000));
    append(&mut mr, Color::Gote, Score::Mate(-4));

    mr.outcome = GameOutcome::Undetermined;
    do_adjudication(Color::Gote, &resign(false, 2, 200), &mut mr);
    assert!(mr.outcome == GameOutcome::WinByAdjudication(Color::Sente));
}

/// An engine that records the commands it gets and answers searches from a queue.
struct MockEngine {
    name: String,
    commands: Vec<String>,
    results: VecDeque<MoveRecord>,
}

impl MockEngine {
    fn new(name: &str, results: Vec<MoveRecord>) -> Self {
        Self { name: name.to_string(), commands: vec![], results: results.into() }
    }
}

fn move_result(bestmove: &str, ponder: Option<&str>) -> MoveRecord {
    MoveRecord {
        m: Move::parse(bestmove).unwrap(),
        mstr: bestmove.to_string(),
        ponder: ponder.and_then(Move::parse),
        ..MoveRecord::default()
    }
}

fn engine_options(ponder_mode: PonderMode) -> EngineOptions {
    EngineOptions {
        time_control: TimeControl::Fischer { base: 60000, increment: 2000 },
        ponder_mode,
        ..EngineOptions::default()
    }
}

fn match_ticket() -> MatchTicket {
    MatchTicket { id: 0, engines: [0, 1], opening: "startpos".to_string() }
}

fn adjudication_with_max_moves(max_moves: u64) -> AdjudicationOptions {
    AdjudicationOptions { max_moves: Some(max_moves), draw: None, resign: None }
}

/// Plays a match against mock engines, carrying out each action of the match.
fn run_match(
    options: &[EngineOptions],
    adjudication: &AdjudicationOptions,
    engines: &mut [MockEngine],
    ticket: &MatchTicket,
) -> Result<MatchResult, String> {
    let (mut flow, mut action) = MatchFlow::new(ticket.clone(), &options.to_vec(), *adjudication, 0);
    let mut errors: Vec<String> = vec![];
    loop {
        let commands = flow.commands();
        let event = match action {
            MatchAction::Prepare { engine, restart } => {
                let e = &mut engines[engine];
                if restart {
                    e.commands.push("<restart>".to_string());
                }
                e.commands.push("isready".to_string());
                e.commands.push("usinewgame".to_string());
                MatchEvent::Done
            }
            MatchAction::PonderHit { engine, .. }
            | MatchAction::Search { engine, .. }
            | MatchAction::StopPonder { engine, .. } => {
                let e = &mut engines[engine];
                e.commands.extend(commands);
                match e.results.pop_front() {
                    Some(record) => MatchEvent::BestMove(record, 0),
                    None => {
                        errors.push(format!("No queued bestmove for {}", e.name));
                        MatchEvent::Failed
                    }
                }
            }
            MatchAction::StartPonder { engine } => {
                engines[engine].commands.extend(commands);
                MatchEvent::Done
            }
            MatchAction::Restart { engine } => {
                engines[engine].commands.push("<restart>".to_string());
                MatchEvent::Done
            }
            MatchAction::Finish => return Ok(flow.into_result()),
            MatchAction::Fail(i) => return Err(errors.swap_remove(i)),
        };
        assert!(flow.accepts(&event));
        action = flow.next(event);
    }
}

fn command_index(commands: &[String], expected: &str) -> usize {
    commands
        .iter()
        .position(|command| command == expected)
        .unwrap_or_else(|| panic!("Missing command {expected:?} in {commands:#?}"))
}

#[test]
fn runs_standard_miss_and_early_hit_with_protocol_synchronization() {
    let options = [engine_options(PonderMode::Standard), engine_options(PonderMode::Early)];
    let mut engines = [
        MockEngine::new(
            "standard",
            vec![
                move_result("7g7f", Some("8c8d")),
                move_result("2g2f", None),
                move_result("2g2f", Some("8c8d")),
                move_result("2f2e", None),
            ],
        ),
        MockEngine::new(
            "early",
            vec![move_result("3c3d", Some("2g2f")), move_result("8c8d", Some("2f2e"))],
        ),
    ];

    let result =
        run_match(&options, &adjudication_with_max_moves(4), &mut engines, &match_ticket()).unwrap();

    assert_eq!(result.outcome, GameOutcome::DrawByMoveLimit);

    let standard_commands = &engines[0].commands;
    let first_ponder = standard_commands
        .iter()
        .position(|command| command.starts_with("go ponder btime "))
        .expect("standard ponder was not started with clocks");
    let miss_stop = standard_commands[first_ponder + 1..]
        .iter()
        .position(|command| command == "stop")
        .map(|index| index + first_ponder + 1)
        .expect("standard ponder miss did not send stop");
    let actual_position = standard_commands[miss_stop + 1..]
        .iter()
        .position(|command| command.ends_with("moves 7g7f 3c3d"))
        .map(|index| index + miss_stop + 1)
        .expect("actual position was not sent after draining ponder miss");
    assert!(first_ponder < miss_stop && miss_stop < actual_position);

    let early_commands = &engines[1].commands;
    assert!(early_commands.iter().any(|command| command == "go ponder"));
    assert!(early_commands.iter().any(|command| {
        command.starts_with("ponderhit wtime ")
            && command.contains(" winc 2000 btime ")
            && command.ends_with(" binc 2000")
    }));
}

#[test]
fn runs_standard_ponder_hit_with_bare_ponderhit() {
    let options = [engine_options(PonderMode::Standard), engine_options(PonderMode::Early)];
    let mut engines = [
        MockEngine::new(
            "standard",
            vec![move_result("7g7f", Some("3c3d")), move_result("2g2f", Some("8c8d"))],
        ),
        MockEngine::new("early", vec![move_result("3c3d", Some("2g2f")), move_result("8c8d", None)]),
    ];

    let result =
        run_match(&options, &adjudication_with_max_moves(3), &mut engines, &match_ticket()).unwrap();

    assert_eq!(result.outcome, GameOutcome::DrawByMoveLimit);
    let commands = &engines[0].commands;
    let ponder_go = commands
        .iter()
        .position(|command| command.starts_with("go ponder btime "))
        .expect("standard ponder was not started");
    let ponderhit = command_index(commands, "ponderhit");
    assert!(ponder_go < ponderhit);
    assert!(!commands.iter().any(|command| command.starts_with("ponderhit ")));
}

#[test]
fn keeps_the_existing_non_ponder_search_path() {
    let options = [engine_options(PonderMode::Off), engine_options(PonderMode::Off)];
    let mut engines = [
        MockEngine::new("first", vec![move_result("7g7f", Some("3c3d"))]),
        MockEngine::new("second", vec![move_result("3c3d", Some("2g2f"))]),
    ];

    let result =
        run_match(&options, &adjudication_with_max_moves(2), &mut engines, &match_ticket()).unwrap();

    assert_eq!(result.outcome, GameOutcome::DrawByMoveLimit);
    for engine in &engines {
        assert!(!engine.commands.iter().any(|command| {
            command == "stop" || command.starts_with("go ponder") || command.starts_with("ponderhit")
        }));
    }
}

#[test]
fn a_ponder_miss_is_stopped_before_the_actual_search() {
    let options = [engine_options(PonderMode::Standard), engine_options(PonderMode::Off)];
    let mut engines = [
        MockEngine::new(
            "standard",
            vec![
                move_result("7g7f", Some("8c8d")),
                move_result("2g2f", None),
                move_result("6i7h", None),
            ],
        ),
        MockEngine::new("plain", vec![move_result("3c3d", None)]),
    ];
    let result =
        run_match(&options, &adjudication_with_max_moves(3), &mut engines, &match_ticket()).unwrap();
    assert_eq!(result.outcome, GameOutcome::DrawByMoveLimit);
    // The stopped search's best move is consumed and not played.
    let played: Vec<&str> = result.moves.iter().map(|r| r.mstr.as_str()).collect();
    assert_eq!(played, vec!["7g7f", "3c3d", "6i7h"]);
    assert_eq!(
        engines[0].commands,
        vec![
            "isready",
            "usinewgame",
            "position startpos",
            "go btime 60000 binc 2000 wtime 60000 winc 2000",
            "position startpos moves 7g7f 8c8d",
            "go ponder btime 62000 binc 2000 wtime 60000 winc 2000",
            "stop",
            "position startpos moves 7g7f 3c3d",
            "go btime 62000 binc 2000 wtime 62000 winc 2000",
        ]
    );
    assert!(result.moves.iter().all(|r| r.stm.is_some()));
    assert_eq!(result.moves[0].time_left, Some(62000));
}

#[test]
fn the_ponder_still_running_at_the_end_is_stopped() {
    let options = [engine_options(PonderMode::Off), engine_options(PonderMode::Early)];
    let mut engines = [
        MockEngine::new("plain", vec![move_result("7g7f", None), move_result("2g2f", None)]),
        MockEngine::new("early", vec![move_result("3c3d", Some("2g2f")), move_result("2g2f", None)]),
    ];
    let result =
        run_match(&options, &adjudication_with_max_moves(3), &mut engines, &match_ticket()).unwrap();
    assert_eq!(result.outcome, GameOutcome::DrawByMoveLimit);
    assert_eq!(engines[1].commands.last().map(String::as_str), Some("stop"));
    assert!(engines[1].results.is_empty());
}

#[test]
fn a_search_without_answer_fails_after_restarting_the_engine() {
    let options = [engine_options(PonderMode::Off), engine_options(PonderMode::Off)];
    let mut engines = [
        MockEngine::new("first", vec![move_result("7g7f", None)]),
        MockEngine::new("second", vec![]),
    ];
    let err = run_match(&options, &adjudication_with_max_moves(10), &mut engines, &match_ticket())
        .unwrap_err();
    assert_eq!(err, "No queued bestmove for second");
    assert_eq!(engines[1].commands.last().map(String::as_str), Some("<restart>"));
}

#[test]
fn a_resigning_engine_loses_and_restarts_happen_only_when_asked() {
    let mut options = vec![engine_options(PonderMode::Off), engine_options(PonderMode::Off)];
    options[1].restart = true;
    let mut engines = [
        MockEngine::new("first", vec![move_result("7g7f", None)]),
        MockEngine::new("second", vec![move_result("resign", None)]),
    ];
    let result =
        run_match(&options, &adjudication_with_max_moves(10), &mut engines, &match_ticket()).unwrap();
    assert_eq!(result.outcome, GameOutcome::LossByResignation(Color::Gote));
    assert_eq!(result.outcome.winner(), Some(Color::Sente));
    assert_eq!(engines[1].commands[0], "<restart>");
    assert_eq!(engines[0].commands[0], "isready");
}
