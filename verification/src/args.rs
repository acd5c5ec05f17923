//! The command line, read flag by flag into the tournament's options.

use vstd::prelude::*;
use crate::cli::{
    BookOptions, BookView, CliOptions, CliOptionsView, DrawAdjudicationOptions, EngineOptions,
    EngineOptionsView, EngineOptionErrorKind, PgnOutOptions, PgnView, ResignAdjudicationOptions,
    SprtOptions, SprtView, apply_engine_option, apply_ponder_engine_options, default_engine_view,
    default_pgn_view, engines_view, has_early_ponder_clock, option_error_kind, parse_cpu_list_with_limit,
    sets_time_control, spec_apply_ponder, spec_engine_option, spec_has_early_ponder_clock,
    spec_parse_cpu_list, usi_ponder_enabled, warns_multiple_time_controls, lemma_apply_ponder_enables,
};
use crate::tc::TimeControl;
use crate::text::{
    ascii_lowercase, is_float_literal, is_float_literal_str, parse_i32, parse_u64, parse_usize,
    spec_parse_i32, spec_parse_unsigned, spec_split_once, spec_starts_with, split_once, starts_with,
    str_eq,
};

verus! {

/// A remark on the command line that does not stop the run.
#[derive(Debug, Clone, Copy, PartialEq, Eq, Structural)]
pub enum CliWarning {
    /// An engine is given a time control on top of one it already has.
    MultipleTimeControls,
    /// `-games` with a value above two.
    ManyGamesPerRound(u64),
}

/// Why the command line is refused. The error's `text` and `detail` carry
/// what the message needs: the offending value, or an option's name and value.
#[derive(Debug, Clone, Copy, PartialEq, Eq, Structural)]
pub enum CliErrorKind {
    /// A flag without its value; `text` is the flag.
    NoValue,
    /// `-variant` other than `standard`.
    UnrecognisedVariant,
    /// A refused engine option; `text` and `detail` are its name and value.
    EngineOption(EngineOptionErrorKind),
    /// A second `-openings`.
    DuplicateOpenings,
    /// `start=0` for the openings.
    ZeroStartIndex,
    /// A `start` that is no number.
    InvalidStartIndex,
    /// A `format` other than `epd`.
    InvalidOpeningsFormat,
    /// An unknown openings option; `text` and `detail` are its name and value.
    UnknownOpeningsOption,
    ZeroConcurrency,
    InvalidConcurrency,
    /// A refused CPU list; `text` is the reason.
    InvalidCpuAffinity,
    InvalidSeed,
    /// `-games 0`.
    ZeroGames,
    /// `-games` with an odd value: games come in pairs.
    OddGames,
    InvalidGames,
    /// `-rounds 0`.
    ZeroRounds,
    InvalidRounds,
    /// A game-record option that needs `true` or `false`.
    InvalidPgnBool,
    /// Game-record options without a file.
    PgnFileRequired,
    InvalidMaxMoves,
    InvalidDrawMoveNumber,
    InvalidDrawMoveCount,
    InvalidDrawScore,
    UnknownDrawKey,
    InvalidResignMoveCount,
    InvalidResignScore,
    InvalidResignTwoSided,
    UnknownResignKey,
    InvalidRatingInterval,
    /// A test parameter that is no number; `text` and `detail` are its name and value.
    InvalidSprtValue,
    UnknownSprtKey,
    UnrecognisedFlag,
    /// Early pondering on an engine without a clock-based time control.
    EarlyPonderNeedsClock,
    /// A refused CPU affinity configuration; `text` is the reason.
    InvalidCpuAffinityConfig,
    /// A test with other than two engines.
    SprtNeedsTwoEngines,
}

/// A refused command line.
#[derive(Debug, Clone)]
pub struct CliError {
    pub kind: CliErrorKind,
    pub text: String,
    pub detail: String,
}

/// What reading the command line comes to.
#[derive(Debug, Clone)]
pub enum ArgsOutcome {
    /// `-version` was asked for.
    Version,
    /// The command line is refused.
    Failed(CliError),
    /// The options it sets.
    Parsed(CliOptions),
}

/// What reading the command line comes to, with the warnings given on the way.
#[derive(Debug, Clone)]
pub struct ParsedArgs {
    pub warnings: Vec<CliWarning>,
    pub outcome: ArgsOutcome,
}

/// A refused command line in views: why, and its two texts.
pub type SpecFail = (CliErrorKind, Seq<char>, Seq<char>);

/// What reading the command line comes to, in views.
pub enum SpecOutcome {
    Version,
    Failed(SpecFail),
    Parsed(CliOptionsView),
}

/// The views of the command-line arguments.
pub open spec fn args_view(v: Seq<String>) -> Seq<Seq<char>> {
    Seq::new(v.len(), |i: int| v[i]@)
}

/// An argument of the form `name=value` that does not start with `-`.
pub open spec fn is_kv(a: Seq<char>) -> bool {
    !spec_starts_with(a, "-"@) && spec_split_once(a, '=') is Some
}

/// The name and value of a `name=value` argument.
pub open spec fn kv(a: Seq<char>) -> (Seq<char>, Seq<char>) {
    spec_split_once(a, '=').unwrap()
}

/// The end of the run of `name=value` arguments that starts at `i`.
pub open spec fn kv_end(args: Seq<Seq<char>>, i: nat) -> nat
    decreases args.len() - i,
{
    if i < args.len() && is_kv(args[i as int]) {
        kv_end(args, i + 1)
    } else {
        i
    }
}

/// The warnings after option `name` is given to engine `e`.
pub open spec fn warn_option(e: EngineOptionsView, name: Seq<char>, w: Seq<CliWarning>) -> Seq<CliWarning> {
    if sets_time_control(name) && e.time_control != TimeControl::Unlimited {
        w.push(CliWarning::MultipleTimeControls)
    } else {
        w
    }
}

/// The engine configured by the options `args[j..end]`, with the warnings.
pub open spec fn engine_kvs(
    args: Seq<Seq<char>>,
    j: nat,
    end: nat,
    e: EngineOptionsView,
    w: Seq<CliWarning>,
) -> Result<(EngineOptionsView, Seq<CliWarning>), (Seq<CliWarning>, SpecFail)>
    decreases end - j,
{
    if j >= end {
        Ok((e, w))
    } else {
        let (n, v) = kv(args[j as int]);
        let w2 = warn_option(e, n, w);
        match spec_engine_option(e, n, v) {
            Some(e2) => engine_kvs(args, j + 1, end, e2, w2),
            None => Err((w2, (CliErrorKind::EngineOption(option_error_kind(n)), n, v))),
        }
    }
}

/// The options `args[j..end]` kept for every engine.
pub open spec fn each_kvs(args: Seq<Seq<char>>, j: nat, end: nat, each: Seq<(Seq<char>, Seq<char>)>) -> Seq<(Seq<char>, Seq<char>)>
    decreases end - j,
{
    if j >= end {
        each
    } else {
        each_kvs(args, j + 1, end, each.push(kv(args[j as int])))
    }
}

/// The opening book configured by the options `args[j..end]`.
pub open spec fn book_kvs(args: Seq<Seq<char>>, j: nat, end: nat, b: BookView) -> Result<BookView, SpecFail>
    decreases end - j,
{
    if j >= end {
        Ok(b)
    } else {
        let (n, v) = kv(args[j as int]);
        if n == "file"@ {
            book_kvs(args, j + 1, end, BookView { file: v, ..b })
        } else if n == "order"@ {
            book_kvs(args, j + 1, end, BookView { random_order: v == "random"@, ..b })
        } else if n == "start"@ {
            match spec_parse_unsigned(v, usize::MAX as nat) {
                Some(k) => if k == 0 {
                    Err((CliErrorKind::ZeroStartIndex, v, Seq::empty()))
                } else {
                    book_kvs(args, j + 1, end, BookView { start_index: k as usize, ..b })
                },
                None => Err((CliErrorKind::InvalidStartIndex, v, Seq::empty())),
            }
        } else if n == "format"@ {
            if v == "epd"@ {
                book_kvs(args, j + 1, end, b)
            } else {
                Err((CliErrorKind::InvalidOpeningsFormat, v, Seq::empty()))
            }
        } else {
            Err((CliErrorKind::UnknownOpeningsOption, n, v))
        }
    }
}

/// `true` or `false`.
pub open spec fn spec_bool(v: Seq<char>) -> Option<bool> {
    if v == "true"@ {
        Some(true)
    } else if v == "false"@ {
        Some(false)
    } else {
        None
    }
}

/// The game-record settings configured by the options `args[j..end]`; each
/// option must leave a file named. Unknown keys are ignored.
pub open spec fn pgn_kvs(args: Seq<Seq<char>>, j: nat, end: nat, p: PgnView) -> Result<PgnView, SpecFail>
    decreases end - j,
{
    if j >= end {
        Ok(p)
    } else {
        let (n, v) = kv(args[j as int]);
        let is_flag = n == "nodes"@ || n == "seldepth"@ || n == "nps"@ || n == "hashfull"@ || n
            == "timeleft"@ || n == "latency"@;
        if is_flag && spec_bool(v) is None {
            Err((CliErrorKind::InvalidPgnBool, n, v))
        } else {
            let q = if n == "file"@ {
                PgnView { file: v, ..p }
            } else if n == "nodes"@ {
                PgnView { track_nodes: spec_bool(v).unwrap(), ..p }
            } else if n == "seldepth"@ {
                PgnView { track_seldepth: spec_bool(v).unwrap(), ..p }
            } else if n == "nps"@ {
                PgnView { track_nps: spec_bool(v).unwrap(), ..p }
            } else if n == "hashfull"@ {
                PgnView { track_hashfull: spec_bool(v).unwrap(), ..p }
            } else if n == "timeleft"@ {
                PgnView { track_timeleft: spec_bool(v).unwrap(), ..p }
            } else if n == "latency"@ {
                PgnView { track_latency: spec_bool(v).unwrap(), ..p }
            } else {
                p
            };
            if q.file.len() == 0 {
                Err((CliErrorKind::PgnFileRequired, Seq::empty(), Seq::empty()))
            } else {
                pgn_kvs(args, j + 1, end, q)
            }
        }
    }
}

/// The draw adjudication configured by the options `args[j..end]`.
pub open spec fn draw_kvs(args: Seq<Seq<char>>, j: nat, end: nat, d: DrawAdjudicationOptions) -> Result<DrawAdjudicationOptions, SpecFail>
    decreases end - j,
{
    if j >= end {
        Ok(d)
    } else {
        let (n, v) = kv(args[j as int]);
        if n == "movenumber"@ {
            match spec_parse_unsigned(v, usize::MAX as nat) {
                Some(k) => draw_kvs(args, j + 1, end, DrawAdjudicationOptions { move_number: k as usize, ..d }),
                None => Err((CliErrorKind::InvalidDrawMoveNumber, v, Seq::empty())),
            }
        } else if n == "movecount"@ {
            match spec_parse_unsigned(v, usize::MAX as nat) {
                Some(k) => if k > 0 {
                    draw_kvs(args, j + 1, end, DrawAdjudicationOptions { move_count: k as usize, ..d })
                } else {
                    Err((CliErrorKind::InvalidDrawMoveCount, v, Seq::empty()))
                },
                None => Err((CliErrorKind::InvalidDrawMoveCount, v, Seq::empty())),
            }
        } else if n == "score"@ {
            match spec_parse_i32(v) {
                Some(k) => if k >= 0 {
                    draw_kvs(args, j + 1, end, DrawAdjudicationOptions { score: k as i32, ..d })
                } else {
                    Err((CliErrorKind::InvalidDrawScore, v, Seq::empty()))
                },
                None => Err((CliErrorKind::InvalidDrawScore, v, Seq::empty())),
            }
        } else {
            Err((CliErrorKind::UnknownDrawKey, n, Seq::empty()))
        }
    }
}

/// The resign adjudication configured by the options `args[j..end]`.
pub open spec fn resign_kvs(args: Seq<Seq<char>>, j: nat, end: nat, r: ResignAdjudicationOptions) -> Result<ResignAdjudicationOptions, SpecFail>
    decreases end - j,
{
    if j >= end {
        Ok(r)
    } else {
        let (n, v) = kv(args[j as int]);
        if n == "movecount"@ {
            match spec_parse_unsigned(v, usize::MAX as nat) {
                Some(k) => if k > 0 {
                    resign_kvs(args, j + 1, end, ResignAdjudicationOptions { move_count: k as usize, ..r })
                } else {
                    Err((CliErrorKind::InvalidResignMoveCount, v, Seq::empty()))
                },
                None => Err((CliErrorKind::InvalidResignMoveCount, v, Seq::empty())),
            }
        } else if n == "score"@ {
            match spec_parse_i32(v) {
                Some(k) => if k >= 0 {
                    resign_kvs(args, j + 1, end, ResignAdjudicationOptions { score: k as i32, ..r })
                } else {
                    Err((CliErrorKind::InvalidResignScore, v, Seq::empty()))
                },
                None => Err((CliErrorKind::InvalidResignScore, v, Seq::empty())),
            }
        } else if n == "twosided"@ {
            if ascii_lowercase(v) == "true"@ {
                resign_kvs(args, j + 1, end, ResignAdjudicationOptions { two_sided: true, ..r })
            } else if ascii_lowercase(v) == "false"@ {
                resign_kvs(args, j + 1, end, ResignAdjudicationOptions { two_sided: false, ..r })
            } else {
                Err((CliErrorKind::InvalidResignTwoSided, v, Seq::empty()))
            }
        } else {
            Err((CliErrorKind::UnknownResignKey, n, Seq::empty()))
        }
    }
}

/// The test parameters configured by the options `args[j..end]`.
pub open spec fn sprt_kvs(args: Seq<Seq<char>>, j: nat, end: nat, s: SprtView) -> Result<SprtView, SpecFail>
    decreases end - j,
{
    if j >= end {
        Ok(s)
    } else {
        let (n, v) = kv(args[j as int]);
        if n == "elo0"@ || n == "elo1"@ || n == "alpha"@ || n == "beta"@ {
            if !is_float_literal(v) {
                Err((CliErrorKind::InvalidSprtValue, n, v))
            } else {
                let t = if n == "elo0"@ {
                    SprtView { nelo0: Some(v), ..s }
                } else if n == "elo1"@ {
                    SprtView { nelo1: Some(v), ..s }
                } else if n == "alpha"@ {
                    SprtView { alpha: Some(v), ..s }
                } else {
                    SprtView { beta: Some(v), ..s }
                };
                sprt_kvs(args, j + 1, end, t)
            }
        } else {
            Err((CliErrorKind::UnknownSprtKey, n, Seq::empty()))
        }
    }
}

/// Option `name=value` given to the engines from position `j` on.
pub open spec fn apply_to_engines(
    es: Seq<EngineOptionsView>,
    j: nat,
    n: Seq<char>,
    v: Seq<char>,
    w: Seq<CliWarning>,
) -> Result<(Seq<EngineOptionsView>, Seq<CliWarning>), (Seq<CliWarning>, SpecFail)>
    decreases es.len() - j,
{
    if j >= es.len() {
        Ok((es, w))
    } else {
        let e = es[j as int];
        let w2 = warn_option(e, n, w);
        match spec_engine_option(e, n, v) {
            Some(e2) => apply_to_engines(es.update(j as int, e2), j + 1, n, v, w2),
            None => Err((w2, (CliErrorKind::EngineOption(option_error_kind(n)), n, v))),
        }
    }
}

/// The options kept for every engine, from position `k` on, given to each
/// engine in turn.
pub open spec fn apply_each(
    each: Seq<(Seq<char>, Seq<char>)>,
    k: nat,
    es: Seq<EngineOptionsView>,
    w: Seq<CliWarning>,
) -> Result<(Seq<EngineOptionsView>, Seq<CliWarning>), (Seq<CliWarning>, SpecFail)>
    decreases each.len() - k,
{
    if k >= each.len() {
        Ok((es, w))
    } else {
        match apply_to_engines(es, 0, each[k as int].0, each[k as int].1, w) {
            Ok((es2, w2)) => apply_each(each, k + 1, es2, w2),
            Err(x) => Err(x),
        }
    }
}

/// An engine that ponders early without a clock to send with `ponderhit`.
pub open spec fn lacks_early_clock(e: EngineOptionsView) -> bool {
    e.ponder_mode == crate::cli::PonderMode::Early && !spec_has_early_ponder_clock(e)
}

/// The state of reading the command line: the options so far, the options
/// kept for every engine, and the warnings given.
pub struct ParseState {
    pub o: CliOptionsView,
    pub each: Seq<(Seq<char>, Seq<char>)>,
    pub w: Seq<CliWarning>,
}

/// What the command line comes to once its flags are read: the options kept
/// for every engine are given to each, pondering is switched on where asked,
/// and early pondering needs a clock.
pub open spec fn finish(st: ParseState) -> (Seq<CliWarning>, SpecOutcome) {
    match apply_each(st.each, 0, st.o.engines, st.w) {
        Err((w, f)) => (w, SpecOutcome::Failed(f)),
        Ok((es, w)) => if exists|j: int| 0 <= j < es.len() && lacks_early_clock(#[trigger] es[j]) {
            (w, SpecOutcome::Failed((CliErrorKind::EarlyPonderNeedsClock, Seq::empty(), Seq::empty())))
        } else {
            (
                w,
                SpecOutcome::Parsed(
                    CliOptionsView {
                        engines: Seq::new(es.len(), |j: int| spec_apply_ponder(es[j])),
                        ..st.o
                    },
                ),
            )
        },
    }
}

/// `ParseState` with other options.
pub open spec fn with_o(st: ParseState, o: CliOptionsView) -> ParseState {
    ParseState { o, ..st }
}

} // verus!

verus! {

/// The run of `name=value` arguments lies between its start and the end of the arguments.
pub proof fn lemma_kv_end_bounds(args: Seq<Seq<char>>, i: nat)
    ensures
        i <= kv_end(args, i),
        i <= args.len() ==> kv_end(args, i) <= args.len(),
        forall|j: nat| i <= j < kv_end(args, i) ==> is_kv(#[trigger] args[j as int]),
        kv_end(args, i) < args.len() ==> !is_kv(args[kv_end(args, i) as int]),
    decreases args.len() - i,
{
    if i < args.len() && is_kv(args[i as int]) {
        lemma_kv_end_bounds(args, i + 1);
    }
}

/// The flags of the command line.
#[derive(Debug, Clone, Copy, PartialEq, Eq, Structural)]
pub enum Flag {
    Version,
    Variant,
    Event,
    Site,
    Engine,
    Each,
    Openings,
    CpuAffinity,
    Concurrency,
    Srand,
    Games,
    Rounds,
    MaxMoves,
    RatingInterval,
    Repeat,
    PgnOut,
    Draw,
    Resign,
    Sprt,
    TestEnv,
    Recover,
    Unknown,
}

/// The flag that an argument names.
pub open spec fn flag_of(f: Seq<char>) -> Flag {
    if f == "-version"@ || f == "--version"@ {
        Flag::Version
    } else if f == "-variant"@ {
        Flag::Variant
    } else if f == "-event"@ {
        Flag::Event
    } else if f == "-site"@ {
        Flag::Site
    } else if f == "-engine"@ {
        Flag::Engine
    } else if f == "-each"@ {
        Flag::Each
    } else if f == "-openings"@ {
        Flag::Openings
    } else if f == "-cpu-affinity"@ {
        Flag::CpuAffinity
    } else if f == "-concurrency"@ {
        Flag::Concurrency
    } else if f == "-srand"@ {
        Flag::Srand
    } else if f == "-games"@ {
        Flag::Games
    } else if f == "-rounds"@ {
        Flag::Rounds
    } else if f == "-maxmoves"@ {
        Flag::MaxMoves
    } else if f == "-ratinginterval"@ {
        Flag::RatingInterval
    } else if f == "-repeat"@ {
        Flag::Repeat
    } else if f == "-pgnout"@ {
        Flag::PgnOut
    } else if f == "-draw"@ {
        Flag::Draw
    } else if f == "-resign"@ {
        Flag::Resign
    } else if f == "-sprt"@ {
        Flag::Sprt
    } else if f == "-testEnv"@ {
        Flag::TestEnv
    } else if f == "-recover"@ {
        Flag::Recover
    } else {
        Flag::Unknown
    }
}

/// One step of reading: go on at a later argument, end reading (and finish
/// the options), or stop with an outcome.
pub enum Step {
    Continue(nat, ParseState),
    Finish(ParseState),
    Stop(Seq<CliWarning>, SpecOutcome),
}

/// A refusal, with the warnings given so far.
pub open spec fn stop_fail(st: ParseState, kind: CliErrorKind, text: Seq<char>, detail: Seq<char>) -> Step {
    Step::Stop(st.w, SpecOutcome::Failed((kind, text, detail)))
}

/// The value after the flag at `i`, if any.
pub open spec fn value_after(args: Seq<Seq<char>>, i: nat) -> Option<Seq<char>> {
    if i + 1 < args.len() {
        Some(args[i + 1 as int])
    } else {
        None
    }
}

/// `-variant`, `-event` or `-site`, which need a value.
pub open spec fn step_named(args: Seq<Seq<char>>, i: nat, st: ParseState, flag: Flag) -> Step {
    let f = args[i as int];
    let o = st.o;
    match value_after(args, i) {
        None => stop_fail(st, CliErrorKind::NoValue, f, Seq::empty()),
        Some(v) => if flag == Flag::Variant {
            if v != "standard"@ {
                stop_fail(st, CliErrorKind::UnrecognisedVariant, v, Seq::empty())
            } else {
                Step::Continue(i + 2, st)
            }
        } else if flag == Flag::Event {
            Step::Continue(i + 2, with_o(st, CliOptionsView { event_name: v, ..o }))
        } else {
            Step::Continue(i + 2, with_o(st, CliOptionsView { site_name: v, ..o }))
        },
    }
}

/// `-engine` with its options.
pub open spec fn step_engine(args: Seq<Seq<char>>, i: nat, st: ParseState) -> Step {
    let end = kv_end(args, i + 1);
    let o = st.o;
    match engine_kvs(args, i + 1, end, default_engine_view(), st.w) {
        Err((w, x)) => Step::Stop(w, SpecOutcome::Failed(x)),
        Ok((e, w)) => Step::Continue(
            end,
            ParseState { o: CliOptionsView { engines: o.engines.push(e), ..o }, w, ..st },
        ),
    }
}

/// `-each` with its options.
pub open spec fn step_each(args: Seq<Seq<char>>, i: nat, st: ParseState) -> Step {
    let end = kv_end(args, i + 1);
    Step::Continue(end, ParseState { each: each_kvs(args, i + 1, end, st.each), ..st })
}

/// `-openings` with its options; only once.
pub open spec fn step_openings(args: Seq<Seq<char>>, i: nat, st: ParseState) -> Step {
    let o = st.o;
    if o.book is Some {
        stop_fail(st, CliErrorKind::DuplicateOpenings, Seq::empty(), Seq::empty())
    } else {
        let end = kv_end(args, i + 1);
        match book_kvs(args, i + 1, end, BookView { file: "<none>"@, random_order: false, start_index: 1 }) {
            Err(x) => Step::Stop(st.w, SpecOutcome::Failed(x)),
            Ok(b) => Step::Continue(end, with_o(st, CliOptionsView { book: Some(b), ..o })),
        }
    }
}

/// `-cpu-affinity` with its list.
pub open spec fn step_cpu(args: Seq<Seq<char>>, i: nat, st: ParseState, limit: nat) -> Step {
    let o = st.o;
    match value_after(args, i) {
        None => stop_fail(st, CliErrorKind::NoValue, args[i as int], Seq::empty()),
        Some(v) => match spec_parse_cpu_list(v, limit) {
            Err(m) => stop_fail(st, CliErrorKind::InvalidCpuAffinity, m, Seq::empty()),
            Ok(c) => Step::Continue(i + 2, with_o(st, CliOptionsView { cpu_affinity: Some(c), ..o })),
        },
    }
}

/// A flag with a numeric value; a missing value ends reading.
pub open spec fn step_number(args: Seq<Seq<char>>, i: nat, st: ParseState, flag: Flag) -> Step {
    let o = st.o;
    match value_after(args, i) {
        None => Step::Finish(st),
        Some(v) => {
            let n = spec_parse_unsigned(v, u64::MAX as nat);
            if flag == Flag::Concurrency {
                match n {
                    Some(k) => if k == 0 {
                        stop_fail(st, CliErrorKind::ZeroConcurrency, v, Seq::empty())
                    } else {
                        Step::Continue(i + 2, with_o(st, CliOptionsView { concurrency: k as u64, ..o }))
                    },
                    None => stop_fail(st, CliErrorKind::InvalidConcurrency, v, Seq::empty()),
                }
            } else if flag == Flag::Srand {
                match n {
                    Some(k) => Step::Continue(i + 2, with_o(st, CliOptionsView { rand_seed: Some(k as u64), ..o })),
                    None => stop_fail(st, CliErrorKind::InvalidSeed, v, Seq::empty()),
                }
            } else if flag == Flag::Games {
                match n {
                    Some(k) => if k == 0 {
                        stop_fail(st, CliErrorKind::ZeroGames, v, Seq::empty())
                    } else if k % 2 != 0 {
                        stop_fail(st, CliErrorKind::OddGames, v, Seq::empty())
                    } else {
                        let w = if k > 2 {
                            st.w.push(CliWarning::ManyGamesPerRound(k as u64))
                        } else {
                            st.w
                        };
                        Step::Continue(i + 2, ParseState { o: CliOptionsView { rounds: k as u64, ..o }, w, ..st })
                    },
                    None => stop_fail(st, CliErrorKind::InvalidGames, v, Seq::empty()),
                }
            } else if flag == Flag::Rounds {
                match n {
                    Some(k) => if k == 0 {
                        stop_fail(st, CliErrorKind::ZeroRounds, v, Seq::empty())
                    } else {
                        Step::Continue(i + 2, with_o(st, CliOptionsView { games: Some(k as u64), ..o }))
                    },
                    None => stop_fail(st, CliErrorKind::InvalidRounds, v, Seq::empty()),
                }
            } else if flag == Flag::MaxMoves {
                if ascii_lowercase(v) == "inf"@ || ascii_lowercase(v) == "infinite"@ {
                    Step::Continue(
                        i + 2,
                        with_o(st, CliOptionsView { adjudication: crate::cli::AdjudicationOptions { max_moves: None, ..o.adjudication }, ..o }),
                    )
                } else {
                    match n {
                        Some(k) => if k > 0 {
                            Step::Continue(
                                i + 2,
                                with_o(st, CliOptionsView { adjudication: crate::cli::AdjudicationOptions { max_moves: Some(k as u64), ..o.adjudication }, ..o }),
                            )
                        } else {
                            stop_fail(st, CliErrorKind::InvalidMaxMoves, v, Seq::empty())
                        },
                        None => stop_fail(st, CliErrorKind::InvalidMaxMoves, v, Seq::empty()),
                    }
                }
            } else {
                match n {
                    Some(k) => Step::Continue(
                        i + 2,
                        with_o(st, CliOptionsView { report_interval: if k == 0 { None } else { Some(k as u64) }, ..o }),
                    ),
                    None => stop_fail(st, CliErrorKind::InvalidRatingInterval, v, Seq::empty()),
                }
            }
        },
    }
}

/// `-pgnout`, `-draw`, `-resign` or `-sprt` with their options.
pub open spec fn step_settings(args: Seq<Seq<char>>, i: nat, st: ParseState, flag: Flag) -> Step {
    let end = kv_end(args, i + 1);
    let o = st.o;
    if flag == Flag::PgnOut {
        match pgn_kvs(args, i + 1, end, default_pgn_view()) {
            Err(x) => Step::Stop(st.w, SpecOutcome::Failed(x)),
            Ok(p) => Step::Continue(end, with_o(st, CliOptionsView { pgn: Some(p), ..o })),
        }
    } else if flag == Flag::Draw {
        match draw_kvs(args, i + 1, end, DrawAdjudicationOptions { move_number: 0, move_count: 1, score: 0 }) {
            Err(x) => Step::Stop(st.w, SpecOutcome::Failed(x)),
            Ok(d) => Step::Continue(
                end,
                with_o(st, CliOptionsView { adjudication: crate::cli::AdjudicationOptions { draw: Some(d), ..o.adjudication }, ..o }),
            ),
        }
    } else if flag == Flag::Resign {
        match resign_kvs(args, i + 1, end, ResignAdjudicationOptions { move_count: 1, score: 0, two_sided: false }) {
            Err(x) => Step::Stop(st.w, SpecOutcome::Failed(x)),
            Ok(r) => Step::Continue(
                end,
                with_o(st, CliOptionsView { adjudication: crate::cli::AdjudicationOptions { resign: Some(r), ..o.adjudication }, ..o }),
            ),
        }
    } else {
        match sprt_kvs(args, i + 1, end, SprtView { nelo0: None, nelo1: None, alpha: None, beta: None }) {
            Err(x) => Step::Stop(st.w, SpecOutcome::Failed(x)),
            Ok(sp) => Step::Continue(end, with_o(st, CliOptionsView { sprt: Some(sp), ..o })),
        }
    }
}

/// What the flag at `i` does.
pub open spec fn step(args: Seq<Seq<char>>, i: nat, st: ParseState, limit: nat) -> Step {
    let f = args[i as int];
    let o = st.o;
    match flag_of(f) {
        Flag::Version => Step::Stop(st.w, SpecOutcome::Version),
        Flag::Variant | Flag::Event | Flag::Site => step_named(args, i, st, flag_of(f)),
        Flag::Engine => step_engine(args, i, st),
        Flag::Each => step_each(args, i, st),
        Flag::Openings => step_openings(args, i, st),
        Flag::CpuAffinity => step_cpu(args, i, st, limit),
        Flag::Concurrency | Flag::Srand | Flag::Games | Flag::Rounds | Flag::MaxMoves
        | Flag::RatingInterval => step_number(args, i, st, flag_of(f)),
        Flag::Repeat => Step::Continue(i + 1, with_o(st, CliOptionsView { rounds: 2, ..o })),
        Flag::PgnOut | Flag::Draw | Flag::Resign | Flag::Sprt => step_settings(args, i, st, flag_of(f)),
        Flag::TestEnv => Step::Continue(i + 1, with_o(st, CliOptionsView { report_interval: None, ..o })),
        Flag::Recover => Step::Continue(i + 1, st),
        Flag::Unknown => stop_fail(st, CliErrorKind::UnrecognisedFlag, f, Seq::empty()),
    }
}

/// Every step that goes on moves past its flag.
pub proof fn lemma_step_advances(args: Seq<Seq<char>>, i: nat, st: ParseState, limit: nat)
    requires
        i < args.len(),
    ensures
        step(args, i, st, limit) matches Step::Continue(j, _) ==> i < j <= args.len(),
{
    lemma_kv_end_bounds(args, i + 1);
}

/// Reads the flags from position `i` on, for CPU sets of `limit` CPUs.
pub open spec fn parse_from(args: Seq<Seq<char>>, i: nat, st: ParseState, limit: nat) -> (
    Seq<CliWarning>,
    SpecOutcome,
)
    decreases args.len() - i,
{
    if i >= args.len() {
        finish(st)
    } else {
        match step(args, i, st, limit) {
            Step::Continue(j, st2) => if i < j <= args.len() {
                parse_from(args, j, st2, limit)
            } else {
                finish(st2)
            },
            Step::Finish(st2) => finish(st2),
            Step::Stop(w, o) => (w, o),
        }
    }
}

/// What the arguments `args` (without the program name) come to, for CPU
/// sets of `limit` CPUs.
pub open spec fn spec_parse_args(args: Seq<Seq<char>>, limit: nat) -> (Seq<CliWarning>, SpecOutcome) {
    parse_from(
        args,
        0,
        ParseState { o: crate::cli::default_cli_view(), each: Seq::empty(), w: Seq::empty() },
        limit,
    )
}

/// Every engine of accepted options is ready to ponder as asked: one that
/// ponders has USI pondering switched on, and one that ponders early has a
/// clock to send with `ponderhit`.
pub open spec fn engines_ponder_ready(o: CliOptionsView) -> bool {
    forall|j: int|
        0 <= j < o.engines.len() ==> {
            let e = #[trigger] o.engines[j];
            &&& e.ponder_mode != crate::cli::PonderMode::Off ==> usi_ponder_enabled(e.usi_options)
            &&& e.ponder_mode == crate::cli::PonderMode::Early ==> spec_has_early_ponder_clock(e)
        }
}

/// What every accepted command line keeps of the option values it allows:
/// at least one game at a time, no report interval or move limit of zero,
/// an even number of games per round (at least two), no zero rounds,
/// adjudication thresholds of zero or more, and a one-based opening index.
pub open spec fn options_sound(o: CliOptionsView) -> bool {
    &&& o.concurrency >= 1
    &&& o.report_interval != Some(0u64)
    &&& o.adjudication.max_moves != Some(0u64)
    &&& o.rounds >= 2 && o.rounds % 2 == 0
    &&& o.games != Some(0u64)
    &&& o.adjudication.draw matches Some(d) ==> d.score >= 0 && d.move_count >= 1
    &&& o.adjudication.resign matches Some(r) ==> r.score >= 0 && r.move_count >= 1
    &&& o.book matches Some(b) ==> b.start_index >= 1
}

proof fn lemma_book_kvs_sound(args: Seq<Seq<char>>, j: nat, end: nat, b: BookView)
    requires
        b.start_index >= 1,
    ensures
        book_kvs(args, j, end, b) matches Ok(c) ==> c.start_index >= 1,
    decreases end - j,
{
    if j < end {
        let (n, v) = kv(args[j as int]);
        if n == "file"@ {
            lemma_book_kvs_sound(args, j + 1, end, BookView { file: v, ..b });
        } else if n == "order"@ {
            lemma_book_kvs_sound(args, j + 1, end, BookView { random_order: v == "random"@, ..b });
        } else if n == "start"@ {
            if let Some(k) = spec_parse_unsigned(v, usize::MAX as nat) {
                if k != 0 {
                    lemma_book_kvs_sound(args, j + 1, end, BookView { start_index: k as usize, ..b });
                }
            }
        } else if n == "format"@ {
            lemma_book_kvs_sound(args, j + 1, end, b);
        }
    }
}

proof fn lemma_draw_kvs_sound(args: Seq<Seq<char>>, j: nat, end: nat, d: DrawAdjudicationOptions)
    requires
        d.score >= 0,
        d.move_count >= 1,
    ensures
        draw_kvs(args, j, end, d) matches Ok(e) ==> e.score >= 0 && e.move_count >= 1,
    decreases end - j,
{
    if j < end {
        let (n, v) = kv(args[j as int]);
        if n == "movenumber"@ {
            if let Some(k) = spec_parse_unsigned(v, usize::MAX as nat) {
                lemma_draw_kvs_sound(args, j + 1, end, DrawAdjudicationOptions { move_number: k as usize, ..d });
            }
        } else if n == "movecount"@ {
            if let Some(k) = spec_parse_unsigned(v, usize::MAX as nat) {
                if k > 0 {
                    lemma_draw_kvs_sound(args, j + 1, end, DrawAdjudicationOptions { move_count: k as usize, ..d });
                }
            }
        } else if n == "score"@ {
            if let Some(k) = spec_parse_i32(v) {
                if k >= 0 {
                    lemma_draw_kvs_sound(args, j + 1, end, DrawAdjudicationOptions { score: k as i32, ..d });
                }
            }
        }
    }
}

proof fn lemma_resign_kvs_sound(args: Seq<Seq<char>>, j: nat, end: nat, r: ResignAdjudicationOptions)
    requires
        r.score >= 0,
        r.move_count >= 1,
    ensures
        resign_kvs(args, j, end, r) matches Ok(e) ==> e.score >= 0 && e.move_count >= 1,
    decreases end - j,
{
    if j < end {
        let (n, v) = kv(args[j as int]);
        if n == "movecount"@ {
            if let Some(k) = spec_parse_unsigned(v, usize::MAX as nat) {
                if k > 0 {
                    lemma_resign_kvs_sound(args, j + 1, end, ResignAdjudicationOptions { move_count: k as usize, ..r });
                }
            }
        } else if n == "score"@ {
            if let Some(k) = spec_parse_i32(v) {
                if k >= 0 {
                    lemma_resign_kvs_sound(args, j + 1, end, ResignAdjudicationOptions { score: k as i32, ..r });
                }
            }
        } else if n == "twosided"@ {
            if ascii_lowercase(v) == "true"@ {
                lemma_resign_kvs_sound(args, j + 1, end, ResignAdjudicationOptions { two_sided: true, ..r });
            } else if ascii_lowercase(v) == "false"@ {
                lemma_resign_kvs_sound(args, j + 1, end, ResignAdjudicationOptions { two_sided: false, ..r });
            }
        }
    }
}

/// Every step that goes on keeps the option values sound.
proof fn lemma_step_sound(args: Seq<Seq<char>>, i: nat, st: ParseState, limit: nat)
    requires
        i < args.len(),
        options_sound(st.o),
    ensures
        step(args, i, st, limit) matches Step::Continue(_, st2) ==> options_sound(st2.o),
        step(args, i, st, limit) matches Step::Finish(st2) ==> options_sound(st2.o),
{
    let f = args[i as int];
    let end = kv_end(args, i + 1);
    match flag_of(f) {
        Flag::Openings => {
            lemma_book_kvs_sound(args, i + 1, end, BookView { file: "<none>"@, random_order: false, start_index: 1 });
        },
        Flag::Draw => {
            lemma_draw_kvs_sound(args, i + 1, end, DrawAdjudicationOptions { move_number: 0, move_count: 1, score: 0 });
        },
        Flag::Resign => {
            lemma_resign_kvs_sound(args, i + 1, end, ResignAdjudicationOptions { move_count: 1, score: 0, two_sided: false });
        },
        _ => {},
    }
}

proof fn lemma_finish_ready(st: ParseState)
    requires
        options_sound(st.o),
    ensures
        finish(st).1 matches SpecOutcome::Parsed(o) ==> engines_ponder_ready(o) && options_sound(o),
{
    if let Ok((es, w)) = apply_each(st.each, 0, st.o.engines, st.w) {
        if !(exists|j: int| 0 <= j < es.len() && lacks_early_clock(#[trigger] es[j])) {
            let o = CliOptionsView { engines: Seq::new(es.len(), |j: int| spec_apply_ponder(es[j])), ..st.o };
            assert forall|j: int| 0 <= j < o.engines.len() implies {
                let e = #[trigger] o.engines[j];
                &&& e.ponder_mode != crate::cli::PonderMode::Off ==> usi_ponder_enabled(e.usi_options)
                &&& e.ponder_mode == crate::cli::PonderMode::Early ==> spec_has_early_ponder_clock(e)
            } by {
                lemma_apply_ponder_enables(es[j]);
                assert(!lacks_early_clock(es[j]));
            }
        }
    }
}

proof fn lemma_parse_from_ready(args: Seq<Seq<char>>, i: nat, st: ParseState, limit: nat)
    requires
        options_sound(st.o),
    ensures
        parse_from(args, i, st, limit).1 matches SpecOutcome::Parsed(o) ==> engines_ponder_ready(o)
            && options_sound(o),
    decreases args.len() - i,
{
    if i >= args.len() {
        lemma_finish_ready(st);
    } else {
        lemma_step_sound(args, i, st, limit);
        match step(args, i, st, limit) {
            Step::Continue(j, st2) => {
                if i < j <= args.len() {
                    lemma_parse_from_ready(args, j, st2, limit);
                } else {
                    lemma_finish_ready(st2);
                }
            },
            Step::Finish(st2) => {
                lemma_finish_ready(st2);
            },
            Step::Stop(w, o) => {
                lemma_step_stop_not_parsed(args, i, st, limit);
            },
        }
    }
}

proof fn lemma_step_stop_not_parsed(args: Seq<Seq<char>>, i: nat, st: ParseState, limit: nat)
    requires
        i < args.len(),
    ensures
        step(args, i, st, limit) matches Step::Stop(_, o) ==> !(o is Parsed),
{
}

/// Whatever the command line, options that are accepted have sound values
/// (see `options_sound`) and every engine ready to ponder as asked (see
/// `engines_ponder_ready`).
pub proof fn lemma_accepted_options(args: Seq<Seq<char>>, limit: nat)
    ensures
        spec_parse_args(args, limit).1 matches SpecOutcome::Parsed(o) ==> engines_ponder_ready(o)
            && options_sound(o),
{
    lemma_parse_from_ready(
        args,
        0,
        ParseState { o: crate::cli::default_cli_view(), each: Seq::empty(), w: Seq::empty() },
        limit,
    );
}

} // verus!

verus! {

/// The error in `e` is the refusal `f`.
pub open spec fn error_is(e: CliError, f: SpecFail) -> bool {
    e.kind == f.0 && e.text@ == f.1 && e.detail@ == f.2
}

fn cli_error(kind: CliErrorKind, text: &str, detail: &str) -> (r: CliError)
    ensures
        r.kind == kind,
        r.text@ == text@,
        r.detail@ == detail@,
{
    CliError { kind, text: text.to_owned(), detail: detail.to_owned() }
}

fn cli_error1(kind: CliErrorKind, text: &str) -> (r: CliError)
    ensures
        r.kind == kind,
        r.text@ == text@,
        r.detail@ == Seq::<char>::empty(),
{
    CliError { kind, text: text.to_owned(), detail: String::new() }
}

fn cli_error_bare(kind: CliErrorKind) -> (r: CliError)
    ensures
        r.kind == kind,
        r.text@ == Seq::<char>::empty(),
        r.detail@ == Seq::<char>::empty(),
{
    CliError { kind, text: String::new(), detail: String::new() }
}

/// The name and value of a `name=value` argument that does not start with `-`.
fn kv_parts(a: &str) -> (r: Option<(&str, &str)>)
    ensures
        r is Some == is_kv(a@),
        r matches Some((n, v)) ==> kv(a@) == (n@, v@),
{
    if starts_with(a, "-") {
        None
    } else {
        split_once(a, '=')
    }
}

fn kv_end_exec(args: &Vec<String>, start: usize) -> (r: usize)
    requires
        start <= args@.len(),
    ensures
        r == kv_end(args_view(args@), start as nat),
        start <= r <= args@.len(),
{
    let ghost av = args_view(args@);
    let mut j = start;
    while j < args.len() && kv_parts(args[j].as_str()).is_some()
        invariant
            av == args_view(args@),
            start <= j <= args@.len(),
            kv_end(av, start as nat) == kv_end(av, j as nat),
        decreases args@.len() - j,
    {
        j = j + 1;
    }
    j
}

/// The argument at `j` as a name and a value.
fn kv_at<'a>(args: &'a Vec<String>, j: usize) -> (r: (&'a str, &'a str))
    requires
        j < args@.len(),
        is_kv(args_view(args@)[j as int]),
    ensures
        kv(args_view(args@)[j as int]) == (r.0@, r.1@),
{
    match kv_parts(args[j].as_str()) {
        Some(p) => p,
        None => ("", ""),
    }
}

/// Reads the options of an `-engine` flag.
fn read_engine(args: &Vec<String>, start: usize, end: usize, warnings: &mut Vec<CliWarning>) -> (r:
    Result<EngineOptions, CliError>)
    requires
        start <= end <= args@.len(),
        forall|j: nat| start <= j < end ==> is_kv(#[trigger] args_view(args@)[j as int]),
    ensures
        match engine_kvs(args_view(args@), start as nat, end as nat, default_engine_view(), old(warnings)@) {
            Ok((e, w)) => r matches Ok(x) && x@ == e && final(warnings)@ == w,
            Err((w, f)) => r matches Err(x) && error_is(x, f) && final(warnings)@ == w,
        },
{
    let ghost av = args_view(args@);
    let mut engine = EngineOptions::default();
    let mut j = start;
    while j < end
        invariant
            av == args_view(args@),
            start <= j <= end <= args@.len(),
            forall|k: nat| start <= k < end ==> is_kv(#[trigger] av[k as int]),
            engine_kvs(av, start as nat, end as nat, default_engine_view(), old(warnings)@)
                == engine_kvs(av, j as nat, end as nat, engine@, warnings@),
        decreases end - j,
    {
        assert(is_kv(av[j as int]));
        let (name, value) = kv_at(args, j);
        if warns_multiple_time_controls(&engine, name) {
            warnings.push(CliWarning::MultipleTimeControls);
        }
        match apply_engine_option(&mut engine, name, value) {
            Ok(()) => {},
            Err(e) => {
                return Err(
                    CliError {
                        kind: CliErrorKind::EngineOption(e.kind),
                        text: e.name,
                        detail: e.value,
                    },
                );
            },
        }
        j = j + 1;
    }
    Ok(engine)
}

} // verus!

verus! {

/// Keeps the options of an `-each` flag.
fn read_each(args: &Vec<String>, start: usize, end: usize, each: &mut Vec<(String, String)>)
    requires
        start <= end <= args@.len(),
        forall|j: nat| start <= j < end ==> is_kv(#[trigger] args_view(args@)[j as int]),
    ensures
        crate::cli::options_view(final(each)@) == each_kvs(
            args_view(args@),
            start as nat,
            end as nat,
            crate::cli::options_view(old(each)@),
        ),
{
    let ghost av = args_view(args@);
    let mut j = start;
    while j < end
        invariant
            av == args_view(args@),
            start <= j <= end <= args@.len(),
            forall|k: nat| start <= k < end ==> is_kv(#[trigger] av[k as int]),
            each_kvs(av, start as nat, end as nat, crate::cli::options_view(old(each)@)) == each_kvs(
                av,
                j as nat,
                end as nat,
                crate::cli::options_view(each@),
            ),
        decreases end - j,
    {
        assert(is_kv(av[j as int]));
        let (name, value) = kv_at(args, j);
        let ghost before = each@;
        each.push((name.to_owned(), value.to_owned()));
        assert(crate::cli::options_view(each@) =~= crate::cli::options_view(before).push(
            kv(av[j as int]),
        ));
        j = j + 1;
    }
}

/// Reads the options of an `-openings` flag.
fn read_book(args: &Vec<String>, start: usize, end: usize) -> (r: Result<BookOptions, CliError>)
    requires
        start <= end <= args@.len(),
        forall|j: nat| start <= j < end ==> is_kv(#[trigger] args_view(args@)[j as int]),
    ensures
        match book_kvs(
            args_view(args@),
            start as nat,
            end as nat,
            BookView { file: "<none>"@, random_order: false, start_index: 1 },
        ) {
            Ok(b) => r matches Ok(x) && x@ == b,
            Err(f) => r matches Err(x) && error_is(x, f),
        },
{
    let ghost av = args_view(args@);
    let mut book = BookOptions::default();
    let mut j = start;
    while j < end
        invariant
            av == args_view(args@),
            start <= j <= end <= args@.len(),
            forall|k: nat| start <= k < end ==> is_kv(#[trigger] av[k as int]),
            book_kvs(
                av,
                start as nat,
                end as nat,
                BookView { file: "<none>"@, random_order: false, start_index: 1 },
            ) == book_kvs(av, j as nat, end as nat, book@),
        decreases end - j,
    {
        assert(is_kv(av[j as int]));
        let (name, value) = kv_at(args, j);
        if str_eq(name, "file") {
            book.file = value.to_owned();
        } else if str_eq(name, "order") {
            book.random_order = str_eq(value, "random");
        } else if str_eq(name, "start") {
            match parse_usize(value) {
                Some(k) => {
                    if k == 0 {
                        return Err(cli_error1(CliErrorKind::ZeroStartIndex, value));
                    }
                    book.start_index = k;
                },
                None => {
                    return Err(cli_error1(CliErrorKind::InvalidStartIndex, value));
                },
            }
        } else if str_eq(name, "format") {
            if !str_eq(value, "epd") {
                return Err(cli_error1(CliErrorKind::InvalidOpeningsFormat, value));
            }
        } else {
            return Err(cli_error(CliErrorKind::UnknownOpeningsOption, name, value));
        }
        j = j + 1;
    }
    Ok(book)
}

fn read_bool(v: &str) -> (r: Option<bool>)
    ensures
        r == spec_bool(v@),
{
    if str_eq(v, "true") {
        Some(true)
    } else if str_eq(v, "false") {
        Some(false)
    } else {
        None
    }
}

/// Reads the options of a `-pgnout` flag.
fn read_pgn(args: &Vec<String>, start: usize, end: usize) -> (r: Result<PgnOutOptions, CliError>)
    requires
        start <= end <= args@.len(),
        forall|j: nat| start <= j < end ==> is_kv(#[trigger] args_view(args@)[j as int]),
    ensures
        match pgn_kvs(args_view(args@), start as nat, end as nat, default_pgn_view()) {
            Ok(p) => r matches Ok(x) && x@ == p,
            Err(f) => r matches Err(x) && error_is(x, f),
        },
{
    let ghost av = args_view(args@);
    let mut pgn = PgnOutOptions::default();
    let mut j = start;
    while j < end
        invariant
            av == args_view(args@),
            start <= j <= end <= args@.len(),
            forall|k: nat| start <= k < end ==> is_kv(#[trigger] av[k as int]),
            pgn_kvs(av, start as nat, end as nat, default_pgn_view()) == pgn_kvs(
                av,
                j as nat,
                end as nat,
                pgn@,
            ),
        decreases end - j,
    {
        assert(is_kv(av[j as int]));
        let (name, value) = kv_at(args, j);
        let is_flag = str_eq(name, "nodes") || str_eq(name, "seldepth") || str_eq(name, "nps")
            || str_eq(name, "hashfull") || str_eq(name, "timeleft") || str_eq(name, "latency");
        let b = read_bool(value);
        if is_flag && b.is_none() {
            return Err(cli_error(CliErrorKind::InvalidPgnBool, name, value));
        }
        if str_eq(name, "file") {
            pgn.file = value.to_owned();
        } else if str_eq(name, "nodes") {
            pgn.track_nodes = b.unwrap();
        } else if str_eq(name, "seldepth") {
            pgn.track_seldepth = b.unwrap();
        } else if str_eq(name, "nps") {
            pgn.track_nps = b.unwrap();
        } else if str_eq(name, "hashfull") {
            pgn.track_hashfull = b.unwrap();
        } else if str_eq(name, "timeleft") {
            pgn.track_timeleft = b.unwrap();
        } else if str_eq(name, "latency") {
            pgn.track_latency = b.unwrap();
        }
        if pgn.file.as_str().unicode_len() == 0 {
            return Err(cli_error_bare(CliErrorKind::PgnFileRequired));
        }
        j = j + 1;
    }
    Ok(pgn)
}

/// Reads the options of a `-draw` flag.
fn read_draw(args: &Vec<String>, start: usize, end: usize) -> (r: Result<DrawAdjudicationOptions, CliError>)
    requires
        start <= end <= args@.len(),
        forall|j: nat| start <= j < end ==> is_kv(#[trigger] args_view(args@)[j as int]),
    ensures
        match draw_kvs(
            args_view(args@),
            start as nat,
            end as nat,
            DrawAdjudicationOptions { move_number: 0, move_count: 1, score: 0 },
        ) {
            Ok(d) => r matches Ok(x) && x == d,
            Err(f) => r matches Err(x) && error_is(x, f),
        },
{
    let ghost av = args_view(args@);
    let mut draw = DrawAdjudicationOptions::default();
    let mut j = start;
    while j < end
        invariant
            av == args_view(args@),
            start <= j <= end <= args@.len(),
            forall|k: nat| start <= k < end ==> is_kv(#[trigger] av[k as int]),
            draw_kvs(
                av,
                start as nat,
                end as nat,
                DrawAdjudicationOptions { move_number: 0, move_count: 1, score: 0 },
            ) == draw_kvs(av, j as nat, end as nat, draw),
        decreases end - j,
    {
        assert(is_kv(av[j as int]));
        let (name, value) = kv_at(args, j);
        if str_eq(name, "movenumber") {
            match parse_usize(value) {
                Some(k) => {
                    draw.move_number = k;
                },
                None => {
                    return Err(cli_error1(CliErrorKind::InvalidDrawMoveNumber, value));
                },
            }
        } else if str_eq(name, "movecount") {
            match parse_usize(value) {
                Some(k) => {
                    if k == 0 {
                        return Err(cli_error1(CliErrorKind::InvalidDrawMoveCount, value));
                    }
                    draw.move_count = k;
                },
                None => {
                    return Err(cli_error1(CliErrorKind::InvalidDrawMoveCount, value));
                },
            }
        } else if str_eq(name, "score") {
            match parse_i32(value) {
                Some(k) => {
                    if k < 0 {
                        return Err(cli_error1(CliErrorKind::InvalidDrawScore, value));
                    }
                    draw.score = k;
                },
                None => {
                    return Err(cli_error1(CliErrorKind::InvalidDrawScore, value));
                },
            }
        } else {
            return Err(cli_error1(CliErrorKind::UnknownDrawKey, name));
        }
        j = j + 1;
    }
    Ok(draw)
}

/// Reads the options of a `-resign` flag.
fn read_resign(args: &Vec<String>, start: usize, end: usize) -> (r: Result<ResignAdjudicationOptions, CliError>)
    requires
        start <= end <= args@.len(),
        forall|j: nat| start <= j < end ==> is_kv(#[trigger] args_view(args@)[j as int]),
    ensures
        match resign_kvs(
            args_view(args@),
            start as nat,
            end as nat,
            ResignAdjudicationOptions { move_count: 1, score: 0, two_sided: false },
        ) {
            Ok(d) => r matches Ok(x) && x == d,
            Err(f) => r matches Err(x) && error_is(x, f),
        },
{
    let ghost av = args_view(args@);
    let mut resign = ResignAdjudicationOptions::default();
    let mut j = start;
    proof {
        reveal_strlit("true");
        reveal_strlit("false");
        assert(ascii_lowercase("true"@) =~= "true"@);
        assert(ascii_lowercase("false"@) =~= "false"@);
    }
    while j < end
        invariant
            av == args_view(args@),
            start <= j <= end <= args@.len(),
            forall|k: nat| start <= k < end ==> is_kv(#[trigger] av[k as int]),
            resign_kvs(
                av,
                start as nat,
                end as nat,
                ResignAdjudicationOptions { move_count: 1, score: 0, two_sided: false },
            ) == resign_kvs(av, j as nat, end as nat, resign),
            ascii_lowercase("true"@) == "true"@,
            ascii_lowercase("false"@) == "false"@,
        decreases end - j,
    {
        assert(is_kv(av[j as int]));
        let (name, value) = kv_at(args, j);
        if str_eq(name, "movecount") {
            match parse_usize(value) {
                Some(k) => {
                    if k == 0 {
                        return Err(cli_error1(CliErrorKind::InvalidResignMoveCount, value));
                    }
                    resign.move_count = k;
                },
                None => {
                    return Err(cli_error1(CliErrorKind::InvalidResignMoveCount, value));
                },
            }
        } else if str_eq(name, "score") {
            match parse_i32(value) {
                Some(k) => {
                    if k < 0 {
                        return Err(cli_error1(CliErrorKind::InvalidResignScore, value));
                    }
                    resign.score = k;
                },
                None => {
                    return Err(cli_error1(CliErrorKind::InvalidResignScore, value));
                },
            }
        } else if str_eq(name, "twosided") {
            if crate::text::eq_ignore_ascii_case(value, "true") {
                resign.two_sided = true;
            } else if crate::text::eq_ignore_ascii_case(value, "false") {
                resign.two_sided = false;
            } else {
                return Err(cli_error1(CliErrorKind::InvalidResignTwoSided, value));
            }
        } else {
            return Err(cli_error1(CliErrorKind::UnknownResignKey, name));
        }
        j = j + 1;
    }
    Ok(resign)
}

/// Reads the options of an `-sprt` flag.
fn read_sprt(args: &Vec<String>, start: usize, end: usize) -> (r: Result<SprtOptions, CliError>)
    requires
        start <= end <= args@.len(),
        forall|j: nat| start <= j < end ==> is_kv(#[trigger] args_view(args@)[j as int]),
    ensures
        match sprt_kvs(
            args_view(args@),
            start as nat,
            end as nat,
            SprtView { nelo0: None, nelo1: None, alpha: None, beta: None },
        ) {
            Ok(s) => r matches Ok(x) && x@ == s,
            Err(f) => r matches Err(x) && error_is(x, f),
        },
{
    let ghost av = args_view(args@);
    let mut sprt = SprtOptions::default();
    let mut j = start;
    while j < end
        invariant
            av == args_view(args@),
            start <= j <= end <= args@.len(),
            forall|k: nat| start <= k < end ==> is_kv(#[trigger] av[k as int]),
            sprt_kvs(
                av,
                start as nat,
                end as nat,
                SprtView { nelo0: None, nelo1: None, alpha: None, beta: None },
            ) == sprt_kvs(av, j as nat, end as nat, sprt@),
        decreases end - j,
    {
        assert(is_kv(av[j as int]));
        let (name, value) = kv_at(args, j);
        if str_eq(name, "elo0") || str_eq(name, "elo1") || str_eq(name, "alpha") || str_eq(
            name,
            "beta",
        ) {
            if !is_float_literal_str(value) {
                return Err(cli_error(CliErrorKind::InvalidSprtValue, name, value));
            }
            if str_eq(name, "elo0") {
                sprt.nelo0 = Some(value.to_owned());
            } else if str_eq(name, "elo1") {
                sprt.nelo1 = Some(value.to_owned());
            } else if str_eq(name, "alpha") {
                sprt.alpha = Some(value.to_owned());
            } else {
                sprt.beta = Some(value.to_owned());
            }
        } else {
            return Err(cli_error1(CliErrorKind::UnknownSprtKey, name));
        }
        j = j + 1;
    }
    Ok(sprt)
}

} // verus!

verus! {

/// Gives option `name=value` to every engine in turn.
fn apply_to_all(engines: &mut Vec<EngineOptions>, name: &str, value: &str, warnings: &mut Vec<CliWarning>) -> (r: Result<(), CliError>)
    ensures
        match apply_to_engines(engines_view(old(engines)@), 0, name@, value@, old(warnings)@) {
            Ok((es, w)) => r is Ok && engines_view(final(engines)@) == es && final(warnings)@ == w,
            Err((w, f)) => r matches Err(x) && error_is(x, f) && final(warnings)@ == w,
        },
{
    let mut j: usize = 0;
    let n = engines.len();
    while j < n
        invariant
            n == engines@.len(),
            j <= n,
            apply_to_engines(engines_view(old(engines)@), 0, name@, value@, old(warnings)@)
                == apply_to_engines(engines_view(engines@), j as nat, name@, value@, warnings@),
        decreases n - j,
    {
        let ghost before = engines@;
        let mut e = engines.remove(j);
        assert(e@ == engines_view(before)[j as int]);
        if warns_multiple_time_controls(&e, name) {
            warnings.push(CliWarning::MultipleTimeControls);
        }
        match apply_engine_option(&mut e, name, value) {
            Ok(()) => {},
            Err(x) => {
                return Err(
                    CliError {
                        kind: CliErrorKind::EngineOption(x.kind),
                        text: x.name,
                        detail: x.value,
                    },
                );
            },
        }
        engines.insert(j, e);
        assert(engines_view(engines@) =~= engines_view(before).update(j as int, e@));
        j = j + 1;
    }
    Ok(())
}

/// Gives the options kept for every engine to each engine.
fn apply_each_exec(engines: &mut Vec<EngineOptions>, each: &Vec<(String, String)>, warnings: &mut Vec<CliWarning>) -> (r: Result<(), CliError>)
    ensures
        match apply_each(crate::cli::options_view(each@), 0, engines_view(old(engines)@), old(warnings)@) {
            Ok((es, w)) => r is Ok && engines_view(final(engines)@) == es && final(warnings)@ == w,
            Err((w, f)) => r matches Err(x) && error_is(x, f) && final(warnings)@ == w,
        },
{
    let ghost ev = crate::cli::options_view(each@);
    let mut k: usize = 0;
    while k < each.len()
        invariant
            ev == crate::cli::options_view(each@),
            k <= each@.len(),
            apply_each(ev, 0, engines_view(old(engines)@), old(warnings)@) == apply_each(
                ev,
                k as nat,
                engines_view(engines@),
                warnings@,
            ),
        decreases each@.len() - k,
    {
        let pair = &each[k];
        assert(ev[k as int] == (pair.0@, pair.1@));
        match apply_to_all(engines, pair.0.as_str(), pair.1.as_str(), warnings) {
            Ok(()) => {},
            Err(x) => {
                return Err(x);
            },
        }
        k = k + 1;
    }
    Ok(())
}

/// Switches pondering on where asked; refuses early pondering without a clock.
fn ponder_checks(engines: &mut Vec<EngineOptions>) -> (r: Result<(), CliError>)
    ensures
        (exists|j: int| 0 <= j < old(engines)@.len() && lacks_early_clock(#[trigger] engines_view(old(engines)@)[j]))
            ==> (r matches Err(x) && error_is(x, (CliErrorKind::EarlyPonderNeedsClock, Seq::empty(), Seq::empty()))),
        !(exists|j: int| 0 <= j < old(engines)@.len() && lacks_early_clock(#[trigger] engines_view(old(engines)@)[j]))
            ==> r is Ok && engines_view(final(engines)@) == Seq::new(
            old(engines)@.len(),
            |j: int| spec_apply_ponder(engines_view(old(engines)@)[j]),
        ),
{
    let ghost es = engines_view(engines@);
    let n = engines.len();
    let mut j: usize = 0;
    while j < n
        invariant
            n == engines@.len(),
            es == engines_view(old(engines)@),
            es.len() == n,
            j <= n,
            forall|k: int| 0 <= k < j ==> !lacks_early_clock(#[trigger] es[k]),
            forall|k: int| 0 <= k < j ==> #[trigger] engines_view(engines@)[k] == spec_apply_ponder(es[k]),
            forall|k: int| j <= k < n ==> #[trigger] engines_view(engines@)[k] == es[k],
        decreases n - j,
    {
        let ghost before = engines@;
        assert(engines_view(before)[j as int] == es[j as int]);
        let mut e = engines.remove(j);
        assert(e@ == es[j as int]);
        apply_ponder_engine_options(&mut e);
        if e.ponder_mode == crate::cli::PonderMode::Early && !has_early_ponder_clock(&e) {
            assert(lacks_early_clock(engines_view(old(engines)@)[j as int]));
            return Err(cli_error_bare(CliErrorKind::EarlyPonderNeedsClock));
        }
        engines.insert(j, e);
        assert(engines_view(engines@) =~= engines_view(before).update(j as int, e@));
        j = j + 1;
    }
    assert(engines_view(engines@) =~= Seq::new(n as nat, |k: int| spec_apply_ponder(es[k])));
    Ok(())
}

} // verus!

verus! {

/// The reading state held by the options, the options kept for every engine,
/// and the warnings.
pub open spec fn state_view(o: CliOptions, each: Seq<(String, String)>, w: Seq<CliWarning>) -> ParseState {
    ParseState { o: o@, each: crate::cli::options_view(each), w }
}

/// `r` is what reading comes to in `s`.
pub open spec fn outcome_is(r: ParsedArgs, s: (Seq<CliWarning>, SpecOutcome)) -> bool {
    &&& r.warnings@ == s.0
    &&& match (r.outcome, s.1) {
        (ArgsOutcome::Version, SpecOutcome::Version) => true,
        (ArgsOutcome::Failed(e), SpecOutcome::Failed(f)) => error_is(e, f),
        (ArgsOutcome::Parsed(c), SpecOutcome::Parsed(v)) => c@ == v,
        _ => false,
    }
}

fn failed(e: CliError, warnings: Vec<CliWarning>) -> (r: ParsedArgs)
    ensures
        r.warnings == warnings,
        r.outcome == ArgsOutcome::Failed(e),
{
    ParsedArgs { warnings, outcome: ArgsOutcome::Failed(e) }
}

/// Ends reading: gives the options kept for every engine to each, switches
/// pondering on where asked, and refuses early pondering without a clock.
fn finish_exec(options: CliOptions, each: &Vec<(String, String)>, warnings: Vec<CliWarning>) -> (r: ParsedArgs)
    ensures
        outcome_is(r, finish(state_view(options, each@, warnings@))),
{
    let mut options = options;
    let mut warnings = warnings;
    let ghost o0 = options@;
    match apply_each_exec(&mut options.engines, each, &mut warnings) {
        Ok(()) => {},
        Err(e) => {
            return failed(e, warnings);
        },
    }
    let ghost es = engines_view(options.engines@);
    match ponder_checks(&mut options.engines) {
        Ok(()) => {},
        Err(e) => {
            return failed(e, warnings);
        },
    }
    assert(options@ == CliOptionsView {
        engines: Seq::new(es.len(), |j: int| spec_apply_ponder(es[j])),
        ..o0
    });
    ParsedArgs { warnings, outcome: ArgsOutcome::Parsed(options) }
}

} // verus!

verus! {

/// What a step of reading does, as the reader carries it out.
pub enum ExecStep {
    Continue(usize),
    Finish,
    Stop(ArgsOutcome),
}

/// `x` is the outcome `o`.
pub open spec fn args_outcome_is(x: ArgsOutcome, o: SpecOutcome) -> bool {
    match (x, o) {
        (ArgsOutcome::Version, SpecOutcome::Version) => true,
        (ArgsOutcome::Failed(e), SpecOutcome::Failed(f)) => error_is(e, f),
        (ArgsOutcome::Parsed(c), SpecOutcome::Parsed(v)) => c@ == v,
        _ => false,
    }
}

/// The step `r` carried out, leaving the reading state `(o, each, w)`, is
/// the step `s`.
pub open spec fn exec_step_is(r: ExecStep, s: Step, o: CliOptions, each: Seq<(String, String)>, w: Seq<CliWarning>) -> bool {
    match s {
        Step::Continue(j, st2) => r matches ExecStep::Continue(k) && k == j && state_view(o, each, w) == st2,
        Step::Finish(st2) => r is Finish && state_view(o, each, w) == st2,
        Step::Stop(w2, out) => r matches ExecStep::Stop(x) && w == w2 && args_outcome_is(x, out),
    }
}

/// The flag that an argument names.
fn classify(f: &str) -> (r: Flag)
    ensures
        r == flag_of(f@),
{
    if str_eq(f, "-version") || str_eq(f, "--version") {
        Flag::Version
    } else if str_eq(f, "-variant") {
        Flag::Variant
    } else if str_eq(f, "-event") {
        Flag::Event
    } else if str_eq(f, "-site") {
        Flag::Site
    } else if str_eq(f, "-engine") {
        Flag::Engine
    } else if str_eq(f, "-each") {
        Flag::Each
    } else if str_eq(f, "-openings") {
        Flag::Openings
    } else if str_eq(f, "-cpu-affinity") {
        Flag::CpuAffinity
    } else if str_eq(f, "-concurrency") {
        Flag::Concurrency
    } else if str_eq(f, "-srand") {
        Flag::Srand
    } else if str_eq(f, "-games") {
        Flag::Games
    } else if str_eq(f, "-rounds") {
        Flag::Rounds
    } else if str_eq(f, "-maxmoves") {
        Flag::MaxMoves
    } else if str_eq(f, "-ratinginterval") {
        Flag::RatingInterval
    } else if str_eq(f, "-repeat") {
        Flag::Repeat
    } else if str_eq(f, "-pgnout") {
        Flag::PgnOut
    } else if str_eq(f, "-draw") {
        Flag::Draw
    } else if str_eq(f, "-resign") {
        Flag::Resign
    } else if str_eq(f, "-sprt") {
        Flag::Sprt
    } else if str_eq(f, "-testEnv") {
        Flag::TestEnv
    } else if str_eq(f, "-recover") {
        Flag::Recover
    } else {
        Flag::Unknown
    }
}

/// The value after the flag at `i`, if any.
fn value_at<'a>(args: &'a Vec<String>, i: usize) -> (r: Option<&'a str>)
    requires
        i < args@.len(),
    ensures
        match value_after(args_view(args@), i as nat) {
            Some(v) => r matches Some(x) && x@ == v,
            None => r is None,
        },
{
    let _len = args.len();
    if i + 1 < args.len() {
        Some(args[i + 1].as_str())
    } else {
        None
    }
}

fn stop_error(e: CliError) -> (r: ExecStep)
    ensures
        r == ExecStep::Stop(ArgsOutcome::Failed(e)),
{
    ExecStep::Stop(ArgsOutcome::Failed(e))
}

fn exec_named(args: &Vec<String>, i: usize, flag: Flag, options: &mut CliOptions, each: &Vec<(String, String)>, warnings: &Vec<CliWarning>) -> (r: ExecStep)
    requires
        i < args@.len(),
        flag == Flag::Variant || flag == Flag::Event || flag == Flag::Site,
    ensures
        exec_step_is(r, step_named(args_view(args@), i as nat, state_view(*old(options), each@, warnings@), flag), *final(options), each@, warnings@),
{
    let _len = args.len();
    let f = args[i].as_str();
    match value_at(args, i) {
        None => stop_error(cli_error1(CliErrorKind::NoValue, f)),
        Some(v) => {
            if flag == Flag::Variant {
                if !str_eq(v, "standard") {
                    return stop_error(cli_error1(CliErrorKind::UnrecognisedVariant, v));
                }
            } else if flag == Flag::Event {
                options.meta.event_name = v.to_owned();
            } else {
                options.meta.site_name = v.to_owned();
            }
            ExecStep::Continue(i + 2)
        },
    }
}

fn exec_engine(args: &Vec<String>, i: usize, options: &mut CliOptions, each: &Vec<(String, String)>, warnings: &mut Vec<CliWarning>) -> (r: ExecStep)
    requires
        i < args@.len(),
    ensures
        exec_step_is(r, step_engine(args_view(args@), i as nat, state_view(*old(options), each@, old(warnings)@)), *final(options), each@, final(warnings)@),
{
    let _len = args.len();
    proof {
        lemma_kv_end_bounds(args_view(args@), (i + 1) as nat);
    }
    let end = kv_end_exec(args, i + 1);
    match read_engine(args, i + 1, end, warnings) {
        Ok(e) => {
            let ghost before = options.engines@;
            options.engines.push(e);
            assert(engines_view(options.engines@) =~= engines_view(before).push(e@));
            ExecStep::Continue(end)
        },
        Err(e) => stop_error(e),
    }
}

fn exec_each(args: &Vec<String>, i: usize, options: &CliOptions, each: &mut Vec<(String, String)>, warnings: &Vec<CliWarning>) -> (r: ExecStep)
    requires
        i < args@.len(),
    ensures
        exec_step_is(r, step_each(args_view(args@), i as nat, state_view(*options, old(each)@, warnings@)), *options, final(each)@, warnings@),
{
    let _len = args.len();
    proof {
        lemma_kv_end_bounds(args_view(args@), (i + 1) as nat);
    }
    let end = kv_end_exec(args, i + 1);
    read_each(args, i + 1, end, each);
    ExecStep::Continue(end)
}

fn exec_openings(args: &Vec<String>, i: usize, options: &mut CliOptions, each: &Vec<(String, String)>, warnings: &Vec<CliWarning>) -> (r: ExecStep)
    requires
        i < args@.len(),
    ensures
        exec_step_is(r, step_openings(args_view(args@), i as nat, state_view(*old(options), each@, warnings@)), *final(options), each@, warnings@),
{
    let _len = args.len();
    if options.book.is_some() {
        return stop_error(cli_error_bare(CliErrorKind::DuplicateOpenings));
    }
    proof {
        lemma_kv_end_bounds(args_view(args@), (i + 1) as nat);
    }
    let end = kv_end_exec(args, i + 1);
    match read_book(args, i + 1, end) {
        Ok(b) => {
            options.book = Some(b);
            ExecStep::Continue(end)
        },
        Err(e) => stop_error(e),
    }
}

fn exec_cpu(args: &Vec<String>, i: usize, limit: usize, options: &mut CliOptions, each: &Vec<(String, String)>, warnings: &Vec<CliWarning>) -> (r: ExecStep)
    requires
        i < args@.len(),
    ensures
        exec_step_is(r, step_cpu(args_view(args@), i as nat, state_view(*old(options), each@, warnings@), limit as nat), *final(options), each@, warnings@),
{
    let _len = args.len();
    let f = args[i].as_str();
    match value_at(args, i) {
        None => stop_error(cli_error1(CliErrorKind::NoValue, f)),
        Some(v) => match parse_cpu_list_with_limit(v, limit) {
            Ok(c) => {
                options.cpu_affinity = Some(c);
                ExecStep::Continue(i + 2)
            },
            Err(m) => stop_error(cli_error1(CliErrorKind::InvalidCpuAffinity, m.as_str())),
        },
    }
}

fn exec_number(args: &Vec<String>, i: usize, flag: Flag, options: &mut CliOptions, each: &Vec<(String, String)>, warnings: &mut Vec<CliWarning>) -> (r: ExecStep)
    requires
        i < args@.len(),
        flag == Flag::Concurrency || flag == Flag::Srand || flag == Flag::Games || flag == Flag::Rounds
            || flag == Flag::MaxMoves || flag == Flag::RatingInterval,
    ensures
        exec_step_is(r, step_number(args_view(args@), i as nat, state_view(*old(options), each@, old(warnings)@), flag), *final(options), each@, final(warnings)@),
{
    let _len = args.len();
    let v = match value_at(args, i) {
        None => {
            return ExecStep::Finish;
        },
        Some(v) => v,
    };
    let num = parse_u64(v);
    if flag == Flag::Concurrency {
        match num {
            Some(k) => {
                if k == 0 {
                    return stop_error(cli_error1(CliErrorKind::ZeroConcurrency, v));
                }
                options.concurrency = k;
            },
            None => {
                return stop_error(cli_error1(CliErrorKind::InvalidConcurrency, v));
            },
        }
    } else if flag == Flag::Srand {
        match num {
            Some(k) => {
                options.rand_seed = Some(k);
            },
            None => {
                return stop_error(cli_error1(CliErrorKind::InvalidSeed, v));
            },
        }
    } else if flag == Flag::Games {
        match num {
            Some(k) => {
                if k == 0 {
                    return stop_error(cli_error1(CliErrorKind::ZeroGames, v));
                }
                if k % 2 != 0 {
                    return stop_error(cli_error1(CliErrorKind::OddGames, v));
                }
                if k > 2 {
                    warnings.push(CliWarning::ManyGamesPerRound(k));
                }
                options.rounds = k;
            },
            None => {
                return stop_error(cli_error1(CliErrorKind::InvalidGames, v));
            },
        }
    } else if flag == Flag::Rounds {
        match num {
            Some(k) => {
                if k == 0 {
                    return stop_error(cli_error1(CliErrorKind::ZeroRounds, v));
                }
                options.games = Some(k);
            },
            None => {
                return stop_error(cli_error1(CliErrorKind::InvalidRounds, v));
            },
        }
    } else if flag == Flag::MaxMoves {
        proof {
            reveal_strlit("inf");
            reveal_strlit("infinite");
            assert(ascii_lowercase("inf"@) =~= "inf"@);
            assert(ascii_lowercase("infinite"@) =~= "infinite"@);
        }
        if crate::text::eq_ignore_ascii_case(v, "inf") || crate::text::eq_ignore_ascii_case(v, "infinite") {
            options.adjudication.max_moves = None;
        } else {
            match num {
                Some(k) => {
                    if k == 0 {
                        return stop_error(cli_error1(CliErrorKind::InvalidMaxMoves, v));
                    }
                    options.adjudication.max_moves = Some(k);
                },
                None => {
                    return stop_error(cli_error1(CliErrorKind::InvalidMaxMoves, v));
                },
            }
        }
    } else {
        match num {
            Some(k) => {
                options.report_interval = if k == 0 {
                    None
                } else {
                    Some(k)
                };
            },
            None => {
                return stop_error(cli_error1(CliErrorKind::InvalidRatingInterval, v));
            },
        }
    }
    ExecStep::Continue(i + 2)
}

fn exec_settings(args: &Vec<String>, i: usize, flag: Flag, options: &mut CliOptions, each: &Vec<(String, String)>, warnings: &Vec<CliWarning>) -> (r: ExecStep)
    requires
        i < args@.len(),
        flag == Flag::PgnOut || flag == Flag::Draw || flag == Flag::Resign || flag == Flag::Sprt,
    ensures
        exec_step_is(r, step_settings(args_view(args@), i as nat, state_view(*old(options), each@, warnings@), flag), *final(options), each@, warnings@),
{
    let _len = args.len();
    proof {
        lemma_kv_end_bounds(args_view(args@), (i + 1) as nat);
    }
    let end = kv_end_exec(args, i + 1);
    if flag == Flag::PgnOut {
        match read_pgn(args, i + 1, end) {
            Ok(p) => {
                options.pgn = Some(p);
            },
            Err(e) => {
                return stop_error(e);
            },
        }
    } else if flag == Flag::Draw {
        match read_draw(args, i + 1, end) {
            Ok(d) => {
                options.adjudication.draw = Some(d);
            },
            Err(e) => {
                return stop_error(e);
            },
        }
    } else if flag == Flag::Resign {
        match read_resign(args, i + 1, end) {
            Ok(d) => {
                options.adjudication.resign = Some(d);
            },
            Err(e) => {
                return stop_error(e);
            },
        }
    } else {
        match read_sprt(args, i + 1, end) {
            Ok(sp) => {
                options.sprt = Some(sp);
            },
            Err(e) => {
                return stop_error(e);
            },
        }
    }
    ExecStep::Continue(end)
}

/// Carries out the step of the flag at `i`.
fn exec_step(args: &Vec<String>, i: usize, limit: usize, options: &mut CliOptions, each: &mut Vec<(String, String)>, warnings: &mut Vec<CliWarning>) -> (r: ExecStep)
    requires
        i < args@.len(),
    ensures
        exec_step_is(r, step(args_view(args@), i as nat, state_view(*old(options), old(each)@, old(warnings)@), limit as nat), *final(options), final(each)@, final(warnings)@),
{
    let _len = args.len();
    let f = args[i].as_str();
    assert(f@ == args_view(args@)[i as int]);
    let flag = classify(f);
    match flag {
        Flag::Version => ExecStep::Stop(ArgsOutcome::Version),
        Flag::Variant | Flag::Event | Flag::Site => exec_named(args, i, flag, options, each, warnings),
        Flag::Engine => exec_engine(args, i, options, each, warnings),
        Flag::Each => exec_each(args, i, options, each, warnings),
        Flag::Openings => exec_openings(args, i, options, each, warnings),
        Flag::CpuAffinity => exec_cpu(args, i, limit, options, each, warnings),
        Flag::Concurrency | Flag::Srand | Flag::Games | Flag::Rounds | Flag::MaxMoves
        | Flag::RatingInterval => exec_number(args, i, flag, options, each, warnings),
        Flag::Repeat => {
            options.rounds = 2;
            ExecStep::Continue(i + 1)
        },
        Flag::PgnOut | Flag::Draw | Flag::Resign | Flag::Sprt => exec_settings(args, i, flag, options, each, warnings),
        Flag::TestEnv => {
            options.report_interval = None;
            ExecStep::Continue(i + 1)
        },
        Flag::Recover => ExecStep::Continue(i + 1),
        Flag::Unknown => stop_error(cli_error1(CliErrorKind::UnrecognisedFlag, f)),
    }
}

/// Reads the command-line arguments `args` (without the program name), for
/// CPU sets of `limit` CPUs.
pub fn parse_args_with_limit(args: &Vec<String>, limit: usize) -> (r: ParsedArgs)
    ensures
        outcome_is(r, spec_parse_args(args_view(args@), limit as nat)),
{
    let ghost av = args_view(args@);
    let mut options = CliOptions::default();
    let mut each: Vec<(String, String)> = Vec::new();
    let mut warnings: Vec<CliWarning> = Vec::new();
    let n = args.len();
    let mut i: usize = 0;
    assert(crate::cli::options_view(each@) =~= Seq::<(Seq<char>, Seq<char>)>::empty());
    assert(warnings@ =~= Seq::<CliWarning>::empty());
    while i < n
        invariant
            av == args_view(args@),
            n == args@.len(),
            i <= n,
            spec_parse_args(av, limit as nat) == parse_from(
                av,
                i as nat,
                state_view(options, each@, warnings@),
                limit as nat,
            ),
        decreases n - i,
    {
        proof {
            lemma_step_advances(av, i as nat, state_view(options, each@, warnings@), limit as nat);
        }
        match exec_step(args, i, limit, &mut options, &mut each, &mut warnings) {
            ExecStep::Continue(j) => {
                i = j;
            },
            ExecStep::Finish => {
                return finish_exec(options, &each, warnings);
            },
            ExecStep::Stop(o) => {
                return ParsedArgs { warnings, outcome: o };
            },
        }
    }
    finish_exec(options, &each, warnings)
}

/// Reads the command-line arguments `args` (without the program name) for
/// the CPU sets of this system (`libc::CPU_SETSIZE` CPUs).
pub fn parse_args(args: &Vec<String>) -> (r: ParsedArgs)
    ensures
        exists|limit: nat|
            limit >= 32 && outcome_is(r, #[trigger] spec_parse_args(args_view(args@), limit)),
{
    let limit = crate::cli::cpu_set_size();
    parse_args_with_limit(args, limit)
}

} // verus!

verus! {

/// The checks made once the command line is read: the CPU affinity list
/// against the CPUs the process may run on (`allowed[cpu]`), then that a
/// sequential probability ratio test has exactly two engines.
pub fn check_options(options: &CliOptions, allowed: &Vec<bool>) -> (r: Result<(), CliError>)
    requires
        options.cpu_affinity matches Some(c) ==> forall|i: int|
            0 <= i < c@.len() ==> (#[trigger] c@[i]) < allowed@.len(),
    ensures
        match crate::cli::spec_validate_cpu_affinity(options@, allowed@) {
            Err(m) => r matches Err(e) && error_is(
                e,
                (CliErrorKind::InvalidCpuAffinityConfig, m, Seq::empty()),
            ),
            Ok(_) => if options.sprt is Some && options.engines@.len() != 2 {
                r matches Err(e) && error_is(
                    e,
                    (CliErrorKind::SprtNeedsTwoEngines, Seq::empty(), Seq::empty()),
                )
            } else {
                r is Ok
            },
        },
        r is Ok ==> (options.sprt is Some ==> options.engines@.len() == 2),
{
    match crate::cli::validate_cpu_affinity(options, allowed) {
        Ok(()) => {},
        Err(m) => {
            return Err(cli_error1(CliErrorKind::InvalidCpuAffinityConfig, m.as_str()));
        },
    }
    if options.sprt.is_some() && options.engines.len() != 2 {
        return Err(cli_error_bare(CliErrorKind::SprtNeedsTwoEngines));
    }
    Ok(())
}

} // verus!
