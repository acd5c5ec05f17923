use shogitest::engine::{parse_search_output_line, MoveRecord, ReadState};
use shogitest::shogi::Move;

#[test]
fn parses_bestmove_and_ponder_move() {
    let mut record = MoveRecord::default();

    assert!(matches!(
        parse_search_output_line("bestmove 7g7f ponder 3c3d", &mut record),
        ReadState::Stop
    ));
    assert_eq!(record.m, Move::parse("7g7f").unwrap());
    assert_eq!(record.ponder, Move::parse("3c3d"));
}

#[test]
fn ignores_unusable_ponder_move() {
    let mut record = MoveRecord::default();

    parse_search_output_line("bestmove 7g7f ponder resign", &mut record);

    assert_eq!(record.ponder, None);
}
