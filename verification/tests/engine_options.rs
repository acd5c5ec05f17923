use shogitest::cli::{
    apply_engine_option, apply_ponder_engine_options, parse_cpu_list, parse_cpu_list_with_limit,
    parse_engine_option, validate_cpu_affinity, warns_multiple_time_controls, CliOptions,
    EngineOptionErrorKind, EngineOptions, PgnOutOptions, PonderMode,
};
use shogitest::tc::TimeControl;

#[test]
fn names_ponder_modes_and_reads_them_back() {
    for mode in [PonderMode::Off, PonderMode::Standard, PonderMode::Early] {
        assert_eq!(PonderMode::parse(&mode.to_string()), Some(mode));
    }
    assert_eq!(PonderMode::Standard.to_string(), "standard");
    assert_eq!(PonderMode::parse("ON"), Some(PonderMode::Standard));
    assert_eq!(PonderMode::parse("True"), Some(PonderMode::Standard));
    assert_eq!(PonderMode::parse("FALSE"), Some(PonderMode::Off));
    assert_eq!(PonderMode::parse("Early"), Some(PonderMode::Early));
    assert_eq!(PonderMode::parse("late"), None);
}

#[test]
fn a_refused_option_leaves_the_engine_as_it_was() {
    let mut e = EngineOptions::default();
    assert!(apply_engine_option(&mut e, "tc", "10+0.1").is_ok());
    let err = apply_engine_option(&mut e, "tc", "ten").unwrap_err();
    assert_eq!(err.kind, EngineOptionErrorKind::InvalidTimeControl);
    assert_eq!(err.name, "tc");
    assert_eq!(err.value, "ten");
    assert_eq!(e.time_control, TimeControl::Fischer { base: 10000, increment: 100 });
    let err = apply_engine_option(&mut e, "Threads", "4").unwrap_err();
    assert_eq!(err.kind, EngineOptionErrorKind::UnknownOption);
    assert!(e.builder.usi_options.is_empty());
}

#[test]
fn a_second_time_control_earns_a_warning() {
    let mut e = EngineOptions::default();
    assert!(!warns_multiple_time_controls(&e, "tc"));
    assert!(apply_engine_option(&mut e, "nodes", "100").is_ok());
    assert!(warns_multiple_time_controls(&e, "st"));
    assert!(!warns_multiple_time_controls(&e, "timemargin"));
}

#[test]
fn switching_pondering_on_twice_changes_nothing() {
    let mut e = EngineOptions { ponder_mode: PonderMode::Standard, ..EngineOptions::default() };
    e.builder.usi_options.push(("USI_Ponder".to_string(), "TRUE".to_string()));
    apply_ponder_engine_options(&mut e);
    assert_eq!(e.builder.usi_options.len(), 1);

    let mut off = EngineOptions::default();
    apply_ponder_engine_options(&mut off);
    assert!(off.builder.usi_options.is_empty());

    let mut once = EngineOptions { ponder_mode: PonderMode::Early, ..EngineOptions::default() };
    apply_ponder_engine_options(&mut once);
    apply_ponder_engine_options(&mut once);
    assert_eq!(once.builder.usi_options.len(), 1);
}

#[test]
fn counts_threads_only_when_positive() {
    let mut e = EngineOptions::default();
    assert_eq!(e.thread_count(), None);
    e.builder.usi_options.push(("Threads".to_string(), "0".to_string()));
    assert_eq!(e.thread_count(), None);
    e.builder.usi_options.push(("Threads".to_string(), "8".to_string()));
    assert_eq!(e.thread_count(), Some(8));
    e.builder.usi_options.push(("Threads".to_string(), "x".to_string()));
    assert_eq!(e.thread_count(), None);
}

#[test]
fn explains_each_refused_cpu_list() {
    let cases = [
        ("", "CPU affinity list must not be empty"),
        ("1,,2", "Invalid empty CPU entry in affinity list \"1,,2\""),
        ("4-2", "CPU range must be ascending: \"4-2\""),
        ("a-2", "Invalid CPU range \"a-2\""),
        ("3-", "Invalid CPU range \"3-\""),
        ("x", "Invalid CPU number \"x\""),
        ("0-2,1", "CPU 1 is duplicated in the affinity list"),
    ];
    for (list, message) in cases {
        assert_eq!(parse_cpu_list_with_limit(list, 1024).unwrap_err(), message, "{list:?}");
        assert_eq!(parse_cpu_list(list).unwrap_err(), message, "{list:?}");
    }
    assert_eq!(
        parse_cpu_list_with_limit("1020-1030", 1024).unwrap_err(),
        "CPU 1024 exceeds the Linux CPU affinity limit 1024"
    );
    assert_eq!(parse_cpu_list_with_limit("7", 8).unwrap(), vec![7]);
}

#[test]
fn explains_each_refused_cpu_configuration() {
    let engine = |threads: &str| {
        let mut e = EngineOptions::default();
        e.builder.usi_options.push(("Threads".to_string(), threads.to_string()));
        e
    };
    let allowed = vec![true, true, true, false];
    let mut o = CliOptions { engines: vec![engine("1"), engine("1")], ..CliOptions::default() };
    assert!(validate_cpu_affinity(&o, &allowed).is_ok());

    o.cpu_affinity = Some(vec![0, 1, 0]);
    assert_eq!(
        validate_cpu_affinity(&o, &allowed).unwrap_err(),
        "CPU 0 is duplicated in the affinity list"
    );
    o.cpu_affinity = Some(vec![3]);
    assert_eq!(
        validate_cpu_affinity(&o, &allowed).unwrap_err(),
        "CPU 3 is not available in the shogitest process affinity"
    );
    o.cpu_affinity = Some(vec![0]);
    assert_eq!(
        validate_cpu_affinity(&o, &allowed).unwrap_err(),
        "-cpu-affinity provides 1 CPUs, but 2 are required (concurrency 1 x 2 engine threads per game)"
    );
    o.engines[1] = engine("0");
    assert_eq!(
        validate_cpu_affinity(&o, &allowed).unwrap_err(),
        "Engine 2 must specify option.Threads as a positive integer when -cpu-affinity is used"
    );
}

#[test]
fn st_is_a_move_time_in_seconds_that_replaces_other_limits() {
    let mut e = EngineOptions::default();
    assert!(parse_engine_option(&mut e, "nodes", "1000"));
    assert!(parse_engine_option(&mut e, "st", "2"));
    assert_eq!(e.time_control, TimeControl::MoveTime(2000));
    assert!(parse_engine_option(&mut e, "st", "18446744073709551"));
    assert_eq!(e.time_control, TimeControl::MoveTime(18446744073709551000));
    // Longer than a clock holds: the longest time it holds.
    assert!(parse_engine_option(&mut e, "st", "18446744073709552"));
    assert_eq!(e.time_control, TimeControl::MoveTime(u64::MAX));
    assert!(parse_engine_option(&mut e, "st", "18446744073709551615"));
    assert_eq!(e.time_control, TimeControl::MoveTime(u64::MAX));
    assert!(!parse_engine_option(&mut e, "st", "18446744073709551616"));
}

#[test]
fn game_records_track_nothing_by_default() {
    let p = PgnOutOptions::default();
    assert_eq!(p.file, "");
    assert!(!p.track_nodes && !p.track_seldepth && !p.track_nps);
    assert!(!p.track_hashfull && !p.track_timeleft && !p.track_latency);
}

#[test]
fn reads_cpu_lists_for_the_cpu_sets_of_this_system() {
    assert_eq!(parse_cpu_list("4,1-3,8").unwrap(), vec![4, 1, 2, 3, 8]);
    assert!(parse_cpu_list("0-31").is_ok());
}
