use shogitest::args::{
    check_options, parse_args, parse_args_with_limit, ArgsOutcome, CliError, CliErrorKind,
    CliWarning, ParsedArgs,
};
use shogitest::cli::{
    CliOptions, DrawAdjudicationOptions, EngineOptionErrorKind, PonderMode,
    ResignAdjudicationOptions,
};
use shogitest::tc::TimeControl;

fn args(line: &str) -> Vec<String> {
    line.split_whitespace().map(|s| s.to_string()).collect()
}

fn parse(line: &str) -> ParsedArgs {
    parse_args_with_limit(&args(line), 1024)
}

fn parsed(line: &str) -> CliOptions {
    match parse(line).outcome {
        ArgsOutcome::Parsed(o) => o,
        other => panic!("{line:?} was not accepted: {other:?}"),
    }
}

fn failed(line: &str) -> CliError {
    match parse(line).outcome {
        ArgsOutcome::Failed(e) => e,
        other => panic!("{line:?} was not refused: {other:?}"),
    }
}

#[test]
fn reads_a_tournament_command_line() {
    let r = parse(
        "-engine cmd=engine1.exe -engine cmd=engine2.exe -each tc=10+0.1 -rounds 200 \
         -concurrency 4 -openings file=4moves_shogi.sfen.epd",
    );
    assert!(r.warnings.is_empty());
    let o = match r.outcome {
        ArgsOutcome::Parsed(o) => o,
        other => panic!("{other:?}"),
    };
    assert_eq!(o.engines.len(), 2);
    assert_eq!(o.engines[0].builder.cmd, "engine1.exe");
    assert_eq!(o.engines[1].builder.cmd, "engine2.exe");
    for e in &o.engines {
        assert_eq!(e.time_control, TimeControl::Fischer { base: 10000, increment: 100 });
    }
    // Two hundred rounds of two games: a 400 game tournament.
    assert_eq!(o.games, Some(200));
    assert_eq!(o.rounds, 2);
    assert_eq!(o.concurrency, 4);
    let book = o.book.unwrap();
    assert_eq!(book.file, "4moves_shogi.sfen.epd");
    assert!(!book.random_order);
    assert_eq!(book.start_index, 1);
}

#[test]
fn reads_an_sprt_command_line() {
    let o = parsed(
        "-engine cmd=engine-dev.exe -engine cmd=engine-base.exe -each tc=10+0.1 -concurrency 4 \
         -openings file=4moves_shogi.sfen.epd order=random -sprt elo0=0 elo1=5 alpha=0.05 beta=0.05",
    );
    assert_eq!(o.rounds, 2);
    assert!(o.book.as_ref().unwrap().random_order);
    let sprt = o.sprt.clone().unwrap();
    assert_eq!(sprt.nelo0.as_deref(), Some("0"));
    assert_eq!(sprt.nelo1.as_deref(), Some("5"));
    assert_eq!(sprt.alpha.as_deref(), Some("0.05"));
    assert_eq!(sprt.beta.as_deref(), Some("0.05"));
    assert!(check_options(&o, &vec![true; 8]).is_ok());
}

#[test]
fn games_per_round_come_in_pairs() {
    let r = parse("-games 4 -rounds 3");
    assert_eq!(r.warnings, vec![CliWarning::ManyGamesPerRound(4)]);
    match r.outcome {
        ArgsOutcome::Parsed(o) => {
            assert_eq!(o.rounds, 4);
            assert_eq!(o.games, Some(3));
        }
        other => panic!("{other:?}"),
    }
    assert_eq!(parsed("-games 6 -repeat").rounds, 2);
}

#[test]
fn the_defaults_hold_without_flags() {
    let r = parse("");
    assert!(r.warnings.is_empty());
    let o = match r.outcome {
        ArgsOutcome::Parsed(o) => o,
        other => panic!("{other:?}"),
    };
    assert!(o.engines.is_empty());
    assert!(o.book.is_none());
    assert_eq!(o.games, None);
    assert_eq!(o.rounds, 2);
    assert_eq!(o.concurrency, 1);
    assert_eq!(o.report_interval, Some(10));
    assert_eq!(o.adjudication.max_moves, Some(512));
    assert_eq!(o.meta.event_name, "?");
    assert_eq!(o.meta.site_name, "?");
}

#[test]
fn version_ends_reading() {
    assert!(matches!(parse("-version -bogus").outcome, ArgsOutcome::Version));
    assert!(matches!(parse("--version").outcome, ArgsOutcome::Version));
}

#[test]
fn reads_settings_flags() {
    let o = parsed(
        "-event E1 -site S1 -variant standard -srand 7 -games 4 -maxmoves INF -ratinginterval 0 \
         -draw movenumber=40 movecount=8 score=10 -resign movecount=3 score=600 twosided=TRUE \
         -pgnout file=out.pgn nps=true nodes=false color=x -recover -repeat",
    );
    assert_eq!(o.meta.event_name, "E1");
    assert_eq!(o.meta.site_name, "S1");
    assert_eq!(o.rand_seed, Some(7));
    // `-repeat` at the end sets two games per round again.
    assert_eq!(o.rounds, 2);
    assert_eq!(o.adjudication.max_moves, None);
    assert_eq!(o.report_interval, None);
    assert_eq!(
        o.adjudication.draw,
        Some(DrawAdjudicationOptions { move_number: 40, move_count: 8, score: 10 })
    );
    assert_eq!(
        o.adjudication.resign,
        Some(ResignAdjudicationOptions { move_count: 3, score: 600, two_sided: true })
    );
    let pgn = o.pgn.unwrap();
    assert_eq!(pgn.file, "out.pgn");
    assert!(pgn.track_nps);
    assert!(!pgn.track_nodes);
    // Tracking is off unless asked for.
    assert!(!pgn.track_seldepth);
    assert!(!pgn.track_hashfull);

    let o = parsed("-maxmoves 100 -ratinginterval 5 -testEnv");
    assert_eq!(o.adjudication.max_moves, Some(100));
    assert_eq!(o.report_interval, None);
}

#[test]
fn a_number_flag_without_its_value_ends_reading() {
    let o = parsed("-engine cmd=a -concurrency");
    assert_eq!(o.concurrency, 1);
    assert_eq!(o.engines.len(), 1);
}

#[test]
fn reads_engine_options() {
    let o = parsed(
        "-engine name=A dir=/tmp cmd=./a proto=usi st=250 timemargin=20 restart=on \
         option.Hash=64 option.Threads=2 -engine cmd=./b nodes=5000 ponder=on",
    );
    let a = &o.engines[0];
    assert_eq!(a.builder.name.as_deref(), Some("A"));
    assert_eq!(a.builder.dir, "/tmp");
    // `st` is in seconds.
    assert_eq!(a.time_control, TimeControl::MoveTime(250000));
    assert_eq!(a.time_margin, 20);
    assert!(a.restart);
    assert_eq!(a.ponder_mode, PonderMode::Off);
    assert_eq!(a.builder.get_usi_option_value("Hash"), Some("64"));
    assert_eq!(a.thread_count(), Some(2));
    let b = &o.engines[1];
    assert_eq!(b.time_control, TimeControl::Nodes(5000));
    assert_eq!(b.ponder_mode, PonderMode::Standard);
    assert_eq!(b.builder.get_usi_option_value("USI_Ponder"), Some("true"));
}

#[test]
fn warns_of_a_second_time_control() {
    let r = parse("-engine cmd=a tc=10+0.1 -each tc=1:00,5");
    assert_eq!(r.warnings, vec![CliWarning::MultipleTimeControls]);
    match r.outcome {
        ArgsOutcome::Parsed(o) => assert_eq!(
            o.engines[0].time_control,
            TimeControl::Byoyomi { base: 60000, byoyomi: 5000 }
        ),
        other => panic!("{other:?}"),
    }
}

#[test]
fn early_ponder_needs_a_clock() {
    let e = failed("-engine cmd=a ponder=early");
    assert_eq!(e.kind, CliErrorKind::EarlyPonderNeedsClock);
    let e = failed("-engine cmd=a ponder=early nodes=100");
    assert_eq!(e.kind, CliErrorKind::EarlyPonderNeedsClock);
    let o = parsed("-engine cmd=a ponder=early -each tc=600+2");
    assert_eq!(o.engines[0].ponder_mode, PonderMode::Early);
}

#[test]
fn refuses_bad_engine_options() {
    let cases = [
        ("-engine tc=abc", EngineOptionErrorKind::InvalidTimeControl, "tc", "abc"),
        ("-engine st=x", EngineOptionErrorKind::ExpectedNumberForSt, "st", "x"),
        ("-engine st=18446744073709551616", EngineOptionErrorKind::ExpectedNumberForSt, "st", "18446744073709551616"),
        ("-engine nodes=-5", EngineOptionErrorKind::ExpectedNumberForSt, "nodes", "-5"),
        ("-engine timemargin=1.5", EngineOptionErrorKind::ExpectedNumberForTimeMargin, "timemargin", "1.5"),
        ("-engine restart=yes", EngineOptionErrorKind::InvalidRestart, "restart", "yes"),
        ("-engine ponder=maybe", EngineOptionErrorKind::InvalidPonder, "ponder", "maybe"),
        ("-engine proto=uci", EngineOptionErrorKind::InvalidProto, "proto", "uci"),
        ("-engine colour=red", EngineOptionErrorKind::UnknownOption, "colour", "red"),
        ("-engine cmd=a -each restart=1", EngineOptionErrorKind::InvalidRestart, "restart", "1"),
    ];
    for (line, kind, name, value) in cases {
        let e = failed(line);
        assert_eq!(e.kind, CliErrorKind::EngineOption(kind), "{line}");
        assert_eq!(e.text, name);
        assert_eq!(e.detail, value);
    }
    // Options for every engine are checked only when there is an engine.
    assert!(matches!(parse("-each restart=1").outcome, ArgsOutcome::Parsed(_)));
}

#[test]
fn refuses_each_bad_flag_value() {
    let cases = [
        ("-variant", CliErrorKind::NoValue, "-variant"),
        ("-event", CliErrorKind::NoValue, "-event"),
        ("-cpu-affinity", CliErrorKind::NoValue, "-cpu-affinity"),
        ("-variant crazyhouse", CliErrorKind::UnrecognisedVariant, "crazyhouse"),
        ("-openings start=0", CliErrorKind::ZeroStartIndex, "0"),
        ("-openings start=one", CliErrorKind::InvalidStartIndex, "one"),
        ("-openings format=pgn", CliErrorKind::InvalidOpeningsFormat, "pgn"),
        ("-openings plies=8", CliErrorKind::UnknownOpeningsOption, "plies"),
        ("-concurrency 0", CliErrorKind::ZeroConcurrency, "0"),
        ("-concurrency -1", CliErrorKind::InvalidConcurrency, "-1"),
        ("-srand x", CliErrorKind::InvalidSeed, "x"),
        ("-games 0", CliErrorKind::ZeroGames, "0"),
        ("-games 3", CliErrorKind::OddGames, "3"),
        ("-games two", CliErrorKind::InvalidGames, "two"),
        ("-rounds 0", CliErrorKind::ZeroRounds, "0"),
        ("-rounds many", CliErrorKind::InvalidRounds, "many"),
        ("-pgnout file=a.pgn nodes=yes", CliErrorKind::InvalidPgnBool, "nodes"),
        ("-maxmoves 0", CliErrorKind::InvalidMaxMoves, "0"),
        ("-maxmoves lots", CliErrorKind::InvalidMaxMoves, "lots"),
        ("-draw movenumber=x", CliErrorKind::InvalidDrawMoveNumber, "x"),
        ("-draw movecount=0", CliErrorKind::InvalidDrawMoveCount, "0"),
        ("-draw score=-1", CliErrorKind::InvalidDrawScore, "-1"),
        ("-draw moves=3", CliErrorKind::UnknownDrawKey, "moves"),
        ("-resign movecount=0", CliErrorKind::InvalidResignMoveCount, "0"),
        ("-resign score=x", CliErrorKind::InvalidResignScore, "x"),
        ("-resign twosided=yes", CliErrorKind::InvalidResignTwoSided, "yes"),
        ("-resign moves=3", CliErrorKind::UnknownResignKey, "moves"),
        ("-ratinginterval x", CliErrorKind::InvalidRatingInterval, "x"),
        ("-sprt elo0=abc", CliErrorKind::InvalidSprtValue, "elo0"),
        ("-sprt llr=3", CliErrorKind::UnknownSprtKey, "llr"),
        ("-bogus", CliErrorKind::UnrecognisedFlag, "-bogus"),
        ("rounds", CliErrorKind::UnrecognisedFlag, "rounds"),
    ];
    for (line, kind, text) in cases {
        let e = failed(line);
        assert_eq!(e.kind, kind, "{line}");
        assert_eq!(e.text, text, "{line}");
    }
    assert_eq!(failed("-openings file=a -openings file=b").kind, CliErrorKind::DuplicateOpenings);
    assert_eq!(failed("-pgnout nodes=true file=a.pgn").kind, CliErrorKind::PgnFileRequired);
}

#[test]
fn refuses_bad_cpu_lists_while_reading() {
    let e = failed("-cpu-affinity 1,1");
    assert_eq!(e.kind, CliErrorKind::InvalidCpuAffinity);
    assert!(e.text.contains("duplicated"));
    let e = failed("-cpu-affinity 2000");
    assert_eq!(e.kind, CliErrorKind::InvalidCpuAffinity);
    assert!(e.text.contains("exceeds"));
    let o = parsed("-cpu-affinity 0-3");
    assert_eq!(o.cpu_affinity, Some(vec![0, 1, 2, 3]));
    // With this system's limit, a small list is accepted too.
    assert!(matches!(parse_args(&args("-cpu-affinity 0,1")).outcome, ArgsOutcome::Parsed(_)));
}

#[test]
fn checks_options_once_read() {
    let o = parsed("-engine cmd=a -sprt elo0=0 elo1=5");
    let e = check_options(&o, &vec![true; 8]).unwrap_err();
    assert_eq!(e.kind, CliErrorKind::SprtNeedsTwoEngines);

    let o = parsed(
        "-engine cmd=a option.Threads=1 -engine cmd=b option.Threads=1 -concurrency 2 \
         -cpu-affinity 0-3",
    );
    assert!(check_options(&o, &vec![true; 8]).is_ok());
    let e = check_options(&o, &vec![true, true, false, true]).unwrap_err();
    assert_eq!(e.kind, CliErrorKind::InvalidCpuAffinityConfig);
    assert!(e.text.contains("not available"));
    let o = parsed("-engine cmd=a -engine cmd=b -cpu-affinity 0-3");
    let e = check_options(&o, &vec![true; 8]).unwrap_err();
    assert_eq!(e.kind, CliErrorKind::InvalidCpuAffinityConfig);
    assert!(e.text.contains("option.Threads"));
}
