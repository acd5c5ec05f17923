use shogitest::engine::{
    engine_display_name, is_readyok_line, parse_search_output_line, read_handshake_line,
    setoption_command, take_line, EngineBuilder, MoveRecord, ReadState, Score,
};
use shogitest::shogi::Move;

#[test]
fn info_lines_update_the_search_report() {
    let mut mr = MoveRecord::default();
    let r = parse_search_output_line(
        "info depth 12 seldepth 20 score cp -35 nodes 123456 nps 1000000 time 123 hashfull 42 pv 7g7f",
        &mut mr,
    );
    assert_eq!(r, ReadState::Continue);
    assert_eq!(mr.depth, 12);
    assert_eq!(mr.seldepth, 20);
    assert_eq!(mr.score, Score::Cp(-35));
    assert_eq!(mr.nodes, 123456);
    assert_eq!(mr.nps, 1000000);
    assert_eq!(mr.engine_time, 123);
    assert_eq!(mr.hashfull, 42);
    assert_eq!(mr.m, Move::Null);

    parse_search_output_line("info depth x score mate -3 string depth 99", &mut mr);
    assert_eq!(mr.depth, 12);
    assert_eq!(mr.score, Score::Mate(-3));
    parse_search_output_line("info score lowerbound 5 depth 13", &mut mr);
    assert_eq!(mr.depth, 13);
    assert_eq!(mr.score, Score::Mate(-3));
}

#[test]
fn other_lines_change_nothing() {
    let mut mr = MoveRecord::default();
    mr.depth = 3;
    assert_eq!(parse_search_output_line("readyok", &mut mr), ReadState::Continue);
    assert_eq!(parse_search_output_line("", &mut mr), ReadState::Continue);
    assert_eq!(mr.depth, 3);
    assert_eq!(mr.m, Move::Null);
}

#[test]
fn a_bestmove_line_ends_the_search() {
    let mut mr = MoveRecord::default();
    assert_eq!(parse_search_output_line("bestmove resign", &mut mr), ReadState::Stop);
    assert_eq!(mr.m, Move::Resign);
    assert_eq!(mr.mstr, "resign");
    assert_eq!(mr.ponder, None);

    let mut mr = MoveRecord::default();
    parse_search_output_line("bestmove xyz", &mut mr);
    assert_eq!(mr.m, Move::Null);
    assert_eq!(mr.mstr, "xyz");

    let mut mr = MoveRecord::default();
    parse_search_output_line("bestmove P*5e ponder 5d5e+", &mut mr);
    assert_eq!(mr.m, Move::parse("P*5e").unwrap());
    assert_eq!(mr.ponder, Move::parse("5d5e+"));
}

#[test]
fn reads_the_engine_name_from_the_handshake() {
    let mut name = None;
    assert_eq!(read_handshake_line("id name  Super Engine 1.0 ", &mut name), ReadState::Continue);
    assert_eq!(name.as_deref(), Some("Super Engine 1.0"));
    assert_eq!(read_handshake_line("id author someone", &mut name), ReadState::Continue);
    assert_eq!(read_handshake_line("option name Hash type spin", &mut name), ReadState::Continue);
    assert_eq!(name.as_deref(), Some("Super Engine 1.0"));
    assert_eq!(read_handshake_line("  usiok", &mut name), ReadState::Stop);

    let mut none = None;
    assert_eq!(read_handshake_line("id name", &mut none), ReadState::Continue);
    assert_eq!(none, None);
}

#[test]
fn recognises_readyok_in_any_case() {
    assert!(is_readyok_line("readyok\n"));
    assert!(is_readyok_line("  ReadyOK "));
    assert!(!is_readyok_line("readyok now"));
}

#[test]
fn writes_setoption_commands() {
    assert_eq!(setoption_command("USI_Hash", "256"), "setoption name USI_Hash value 256");
}

#[test]
fn the_given_name_comes_before_the_engine_name_and_the_command() {
    let mut b = EngineBuilder::default();
    b.cmd = "./engine".to_string();
    assert_eq!(engine_display_name(&b, None), "./engine");
    assert_eq!(engine_display_name(&b, Some("Engine".to_string())), "Engine");
    b.name = Some("Mine".to_string());
    assert_eq!(engine_display_name(&b, Some("Engine".to_string())), "Mine");
}

#[test]
fn the_last_setting_of_an_option_counts() {
    let mut b = EngineBuilder::default();
    assert_eq!(b.get_usi_option_value("Hash"), None);
    b.usi_options.push(("Hash".to_string(), "16".to_string()));
    b.usi_options.push(("Threads".to_string(), "2".to_string()));
    b.usi_options.push(("Hash".to_string(), "64".to_string()));
    assert_eq!(b.get_usi_option_value("Hash"), Some("64"));
    assert_eq!(b.get_usi_option_value("Threads"), Some("2"));
    assert_eq!(b.get_usi_option_value("hash"), None);
}

#[test]
fn takes_complete_lines_out_of_the_read_buffer() {
    let mut buf = b"readyok\nbestmo".to_vec();
    assert_eq!(take_line(&mut buf), Some(Some("readyok\n".to_string())));
    assert_eq!(buf, b"bestmo".to_vec());
    assert_eq!(take_line(&mut buf), None);
    assert_eq!(buf, b"bestmo".to_vec());
    buf.extend_from_slice(b"ve 7g7f\n\xff\n");
    assert_eq!(take_line(&mut buf), Some(Some("bestmove 7g7f\n".to_string())));
    assert_eq!(take_line(&mut buf), Some(None));
    assert!(buf.is_empty());
}
