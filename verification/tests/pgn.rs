use shogitest::cli::{MetaDataOptions, PgnOutOptions};
use shogitest::engine::{MoveRecord, Score};
use shogitest::pgn::{game_record, move_line, move_notes, result_text, termination_text};
use shogitest::shogi::{Color, GameOutcome};
use shogitest::tournament::{MatchResult, MatchTicket};

fn record(mstr: &str, score: Score) -> MoveRecord {
    let mut r = MoveRecord::default();
    r.mstr = mstr.to_string();
    r.score = score;
    r.depth = 12;
    r.seldepth = 20;
    r.nodes = 123456;
    r.nps = 987654;
    r.engine_time = 950;
    r.hashfull = 17;
    r.measured_time = 1000;
    r.time_left = Some(59000);
    r
}

fn tracking_all() -> PgnOutOptions {
    PgnOutOptions {
        file: "games.pgn".to_string(),
        track_nodes: true,
        track_seldepth: true,
        track_nps: true,
        track_hashfull: true,
        track_timeleft: true,
        track_latency: true,
    }
}

#[test]
fn move_notes_by_default_give_score_depth_and_time() {
    let o = PgnOutOptions::default();
    assert_eq!(move_notes(&record("7g7f", Score::Cp(34)), &o), "+0.34 d=12 mt=1000");
    assert_eq!(move_notes(&record("7g7f", Score::Cp(-5)), &o), "-0.05 d=12 mt=1000");
    assert_eq!(move_notes(&record("7g7f", Score::Cp(-1234)), &o), "-12.34 d=12 mt=1000");
    assert_eq!(move_notes(&record("7g7f", Score::Cp(0)), &o), "+0.00 d=12 mt=1000");
    assert_eq!(move_notes(&record("7g7f", Score::Mate(-3)), &o), "M-3 d=12 mt=1000");
    assert_eq!(move_notes(&record("7g7f", Score::Mate(5)), &o), "M5 d=12 mt=1000");
    assert_eq!(move_notes(&record("7g7f", Score::Unset), &o), "d=12 mt=1000");
}

#[test]
fn move_notes_carry_each_tracked_figure() {
    let o = tracking_all();
    assert_eq!(
        move_notes(&record("2g2f", Score::Cp(150)), &o),
        "+1.50 d=12 sd=20 mt=1000 tl=59000 latency=50 n=123456 nps=987654 hashfull=17"
    );
    let mut r = record("2g2f", Score::Cp(150));
    r.engine_time = 1200;
    r.time_left = None;
    assert_eq!(move_notes(&r, &o), "+1.50 d=12 sd=20 mt=1000 latency=-200 n=123456 nps=987654 hashfull=17");
}

#[test]
fn move_lines_are_numbered_from_one() {
    let o = PgnOutOptions::default();
    assert_eq!(move_line(0, &record("7g7f", Score::Cp(34)), &o), "1. 7g7f {+0.34 d=12 mt=1000}\n");
    assert_eq!(move_line(9, &record("3c3d", Score::Unset), &o), "10. 3c3d {d=12 mt=1000}\n");
}

#[test]
fn result_tags_follow_the_winner() {
    assert_eq!(result_text(&GameOutcome::WinByDeclaration(Color::Sente)), "1-0");
    assert_eq!(result_text(&GameOutcome::LossByClock(Color::Sente)), "0-1");
    assert_eq!(result_text(&GameOutcome::LossByResignation(Color::Gote)), "1-0");
    assert_eq!(result_text(&GameOutcome::DrawByRepetition), "1/2-1/2");
    assert_eq!(result_text(&GameOutcome::Undetermined), "*");
}

#[test]
fn terminations_are_written_in_words() {
    assert_eq!(termination_text(&GameOutcome::DrawByMoveLimit), "draw by move limit");
    assert_eq!(termination_text(&GameOutcome::WinByAdjudication(Color::Gote)), "Gote wins by adjudication");
    assert_eq!(termination_text(&GameOutcome::LossByIllegalMove(Color::Sente)), "Sente makes an illegal move");
    assert_eq!(termination_text(&GameOutcome::LossByDisconnection(Color::Gote)), "Gote disconnects");
}

#[test]
fn a_game_record_has_tags_moves_and_result() {
    let result = MatchResult {
        ticket: MatchTicket { id: 4, engines: [1, 0], opening: "startpos".to_string() },
        game_start: 0,
        outcome: GameOutcome::LossByResignation(Color::Gote),
        moves: vec![record("7g7f", Score::Cp(34)), record("3c3d", Score::Mate(-7))],
    };
    let meta = MetaDataOptions { event_name: "Test".to_string(), site_name: "Here".to_string() };
    let text = game_record(&result, "alpha", "beta", &meta, "2024.01.02", &PgnOutOptions::default());
    assert_eq!(
        text,
        "[Event \"Test\"]\n[Site \"Here\"]\n[Date \"2024.01.02\"]\n[Round \"5\"]\n[White \"alpha\"]\n\
         [Black \"beta\"]\n[Result \"1-0\"]\n[FEN \"startpos\"]\n[Termination \"Gote resigns\"]\n\n\
         1. 7g7f {+0.34 d=12 mt=1000}\n2. 3c3d {M-7 d=12 mt=1000}\n1-0\n\n"
    );
}
