use shogitest::cli::{
    apply_ponder_engine_options, has_early_ponder_clock, parse_cpu_list, parse_engine_option,
    validate_cpu_affinity, CliOptions, EngineOptions, PonderMode,
};
use shogitest::tc::TimeControl;

#[test]
fn parses_engine_ponder_modes() {
    let mut engine = EngineOptions::default();

    assert!(parse_engine_option(&mut engine, "ponder", "standard"));
    assert_eq!(engine.ponder_mode, PonderMode::Standard);

    assert!(parse_engine_option(&mut engine, "ponder", "early"));
    assert_eq!(engine.ponder_mode, PonderMode::Early);

    assert!(parse_engine_option(&mut engine, "ponder", "off"));
    assert_eq!(engine.ponder_mode, PonderMode::Off);

    assert!(!parse_engine_option(&mut engine, "ponder", "invalid"));
}

#[test]
fn enabling_ponder_adds_the_usi_option() {
    let mut engine = EngineOptions {
        ponder_mode: PonderMode::Early,
        ..EngineOptions::default()
    };

    apply_ponder_engine_options(&mut engine);

    assert_eq!(
        engine.builder.get_usi_option_value("USI_Ponder"),
        Some("true")
    );
}

#[test]
fn enabling_ponder_overrides_an_explicit_false_usi_option() {
    let mut engine = EngineOptions {
        ponder_mode: PonderMode::Standard,
        ..EngineOptions::default()
    };
    engine
        .builder
        .usi_options
        .push(("USI_Ponder".to_string(), "false".to_string()));

    apply_ponder_engine_options(&mut engine);

    assert_eq!(
        engine.builder.get_usi_option_value("USI_Ponder"),
        Some("true")
    );
}

#[test]
fn early_ponder_requires_clock_arguments_for_ponderhit() {
    let mut engine = EngineOptions {
        ponder_mode: PonderMode::Early,
        ..EngineOptions::default()
    };

    assert!(!has_early_ponder_clock(&engine));
    engine.time_control = TimeControl::Nodes(1000);
    assert!(!has_early_ponder_clock(&engine));
    engine.time_control = TimeControl::MoveTime(1000);
    assert!(has_early_ponder_clock(&engine));
}

#[test]
fn parses_cpu_ranges_without_reordering_them() {
    assert_eq!(parse_cpu_list("4,1-3,8").unwrap(), vec![4, 1, 2, 3, 8]);
}

#[test]
fn rejects_duplicate_and_descending_cpu_ranges() {
    assert!(parse_cpu_list("1,1").unwrap_err().contains("duplicated"));
    assert!(parse_cpu_list("4-2").unwrap_err().contains("ascending"));
}

#[test]
fn validates_exact_cpu_count_for_all_engines_and_slots() {
    // Six CPUs that the process may run on.
    let allowed = vec![true; 1024];
    let cpus: Vec<usize> = (0..6).collect();

    let engine = |threads: &str| {
        let mut engine = EngineOptions::default();
        engine
            .builder
            .usi_options
            .push(("Threads".to_string(), threads.to_string()));
        engine
    };
    let mut options = CliOptions {
        engines: vec![engine("2"), engine("1")],
        concurrency: 2,
        cpu_affinity: Some(cpus),
        ..CliOptions::default()
    };

    assert!(validate_cpu_affinity(&options, &allowed).is_ok());
    options.cpu_affinity.as_mut().unwrap().pop();
    assert!(
        validate_cpu_affinity(&options, &allowed)
            .unwrap_err()
            .contains("6 are required")
    );
}
