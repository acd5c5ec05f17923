//! Command-line options: their defaults, the engine options, and the rules
//! by which the command line sets them.

use vstd::prelude::*;
use crate::engine::{EngineBuilder, last_option_value};
use crate::tc::{TimeControl, spec_parse_tc};
use crate::text::{
    ascii_lowercase, debug_chars, debug_string, decimal_chars, eq_ignore_ascii_case,
    lemma_split_once_len, parse_u64, parse_usize, push_decimal, push_str, spec_parse_unsigned,
    spec_split_once, split_once,
    spec_starts_with, str_eq, strip_prefix,
};

verus! {

/// The views of a list of USI option settings.
pub open spec fn options_view(v: Seq<(String, String)>) -> Seq<(Seq<char>, Seq<char>)> {
    Seq::new(v.len(), |i: int| (v[i].0@, v[i].1@))
}

/// How an engine ponders (thinks on the opponent's time).
#[derive(Debug, Copy, Clone, PartialEq, Eq, Structural)]
pub enum PonderMode {
    /// No pondering.
    Off,
    /// A clocked `go ponder`, then a bare `ponderhit`.
    Standard,
    /// A clockless `go ponder`, then a clocked `ponderhit`.
    Early,
}

impl Default for PonderMode {
    fn default() -> (r: PonderMode)
        ensures
            r == PonderMode::Off,
    {
        PonderMode::Off
    }
}

/// The ponder mode that a value names, in any ASCII case.
pub open spec fn spec_parse_ponder(v: Seq<char>) -> Option<PonderMode> {
    let l = ascii_lowercase(v);
    if l == "off"@ || l == "false"@ {
        Some(PonderMode::Off)
    } else if l == "on"@ || l == "true"@ || l == "standard"@ {
        Some(PonderMode::Standard)
    } else if l == "early"@ {
        Some(PonderMode::Early)
    } else {
        None
    }
}

/// The name under which a ponder mode is shown.
pub open spec fn ponder_name(m: PonderMode) -> Seq<char> {
    match m {
        PonderMode::Off => "off"@,
        PonderMode::Standard => "standard"@,
        PonderMode::Early => "early"@,
    }
}

/// `l` is all lower case, so it is its own lower-case form.
proof fn lemma_lower_literal(l: Seq<char>)
    requires
        forall|i: int| 0 <= i < l.len() ==> !('A' <= #[trigger] l[i] && l[i] <= 'Z'),
    ensures
        ascii_lowercase(l) == l,
{
    assert(ascii_lowercase(l) =~= l);
}

/// Compares `v` without ASCII case to the lower-case literal `lit`.
fn matches_lower(v: &str, lit: &str) -> (r: bool)
    requires
        forall|i: int| 0 <= i < lit@.len() ==> !('A' <= #[trigger] lit@[i] && lit@[i] <= 'Z'),
    ensures
        r == (ascii_lowercase(v@) == lit@),
{
    proof {
        lemma_lower_literal(lit@);
    }
    eq_ignore_ascii_case(v, lit)
}

impl PonderMode {
    /// Reads a ponder mode: `off` or `false`; `on`, `true` or `standard`;
    /// `early`; in any ASCII case.
    pub fn parse(value: &str) -> (r: Option<PonderMode>)
        ensures
            r == spec_parse_ponder(value@),
    {
        proof {
            reveal_strlit("off");
            reveal_strlit("false");
            reveal_strlit("on");
            reveal_strlit("true");
            reveal_strlit("standard");
            reveal_strlit("early");
        }
        if matches_lower(value, "off") || matches_lower(value, "false") {
            Some(PonderMode::Off)
        } else if matches_lower(value, "on") || matches_lower(value, "true") || matches_lower(
            value,
            "standard",
        ) {
            Some(PonderMode::Standard)
        } else if matches_lower(value, "early") {
            Some(PonderMode::Early)
        } else {
            None
        }
    }

    /// The name under which the mode is shown: `off`, `standard` or `early`.
    pub fn to_string(&self) -> (r: String)
        ensures
            r@ == ponder_name(*self),
    {
        match self {
            PonderMode::Off => "off".to_owned(),
            PonderMode::Standard => "standard".to_owned(),
            PonderMode::Early => "early".to_owned(),
        }
    }
}

/// Reading back the name of a ponder mode gives the mode.
pub proof fn lemma_ponder_name_roundtrip(m: PonderMode)
    ensures
        spec_parse_ponder(ponder_name(m)) == Some(m),
{
    reveal_strlit("off");
    reveal_strlit("false");
    reveal_strlit("on");
    reveal_strlit("true");
    reveal_strlit("standard");
    reveal_strlit("early");
    lemma_lower_literal(ponder_name(m));
    match m {
        PonderMode::Off => {},
        PonderMode::Standard => {
            assert("standard"@.len() == 8);
            assert("standard"@ != "off"@);
            assert("standard"@ != "false"@);
        },
        PonderMode::Early => {
            assert("early"@ != "off"@);
            assert("early"@[0] != "false"@[0]);
            assert("early"@ != "on"@);
            assert("early"@ != "true"@);
            assert("early"@ != "standard"@);
        },
    }
}

/// The configuration of one engine.
#[derive(Debug, Clone)]
pub struct EngineOptions {
    pub builder: EngineBuilder,
    pub time_control: TimeControl,
    /// Extra time, in milliseconds, before the engine counts as over time.
    pub time_margin: u64,
    pub restart: bool,
    pub ponder_mode: PonderMode,
}

/// The configuration of one engine, with its strings as character sequences.
pub struct EngineOptionsView {
    pub dir: Seq<char>,
    pub cmd: Seq<char>,
    pub name: Option<Seq<char>>,
    pub usi_options: Seq<(Seq<char>, Seq<char>)>,
    pub time_control: TimeControl,
    pub time_margin: u64,
    pub restart: bool,
    pub ponder_mode: PonderMode,
}

impl View for EngineOptions {
    type V = EngineOptionsView;

    open spec fn view(&self) -> EngineOptionsView {
        EngineOptionsView {
            dir: self.builder.dir@,
            cmd: self.builder.cmd@,
            name: match self.builder.name {
                Some(n) => Some(n@),
                None => None,
            },
            usi_options: options_view(self.builder.usi_options@),
            time_control: self.time_control,
            time_margin: self.time_margin,
            restart: self.restart,
            ponder_mode: self.ponder_mode,
        }
    }
}

/// The engine configuration that nothing on the command line has changed.
pub open spec fn default_engine_view() -> EngineOptionsView {
    EngineOptionsView {
        dir: Seq::empty(),
        cmd: Seq::empty(),
        name: None,
        usi_options: Seq::empty(),
        time_control: TimeControl::Unlimited,
        time_margin: 0,
        restart: false,
        ponder_mode: PonderMode::Off,
    }
}

impl Default for EngineOptions {
    fn default() -> (r: EngineOptions)
        ensures
            r@ == default_engine_view(),
    {
        let r = EngineOptions {
            builder: EngineBuilder::default(),
            time_control: TimeControl::Unlimited,
            time_margin: 0,
            restart: false,
            ponder_mode: PonderMode::Off,
        };
        assert(r@.usi_options =~= Seq::<(Seq<char>, Seq<char>)>::empty());
        assert(r@.dir =~= Seq::<char>::empty());
        assert(r@.cmd =~= Seq::<char>::empty());
        r
    }
}

/// The last value given to USI option `key`, in views.
pub open spec fn last_value_view(opts: Seq<(Seq<char>, Seq<char>)>, key: Seq<char>) -> Option<Seq<char>>
    decreases opts.len(),
{
    if opts.len() == 0 {
        None
    } else if opts.last().0 == key {
        Some(opts.last().1)
    } else {
        last_value_view(opts.drop_last(), key)
    }
}

proof fn lemma_last_value_view(opts: Seq<(String, String)>, key: Seq<char>)
    ensures
        last_value_view(options_view(opts), key) == last_option_value(opts, key),
    decreases opts.len(),
{
    if opts.len() > 0 {
        assert(options_view(opts).drop_last() =~= options_view(opts.drop_last()));
        lemma_last_value_view(opts.drop_last(), key);
    }
}

/// The thread count that an engine's `Threads` option sets: a positive
/// `usize`, if its last value reads as one.
pub open spec fn spec_thread_count(e: EngineOptionsView) -> Option<usize> {
    match last_value_view(e.usi_options, "Threads"@) {
        Some(v) => match spec_parse_unsigned(v, usize::MAX as nat) {
            Some(n) => if n > 0 {
                Some(n as usize)
            } else {
                None
            },
            None => None,
        },
        None => None,
    }
}

impl EngineOptions {
    /// The number of threads the engine is set to use, when its `Threads`
    /// option reads as a positive number.
    pub fn thread_count(&self) -> (r: Option<usize>)
        ensures
            r == spec_thread_count(self@),
    {
        proof {
            lemma_last_value_view(self.builder.usi_options@, "Threads"@);
        }
        match self.builder.get_usi_option_value("Threads") {
            Some(value) => match parse_usize(value) {
                Some(n) => if n > 0 {
                    Some(n)
                } else {
                    None
                },
                None => None,
            },
            None => None,
        }
    }
}

} // verus!

verus! {

/// Why an engine option was refused.
#[derive(Debug, Clone, Copy, PartialEq, Eq, Structural)]
pub enum EngineOptionErrorKind {
    /// `tc` with a value that is no time control.
    InvalidTimeControl,
    /// `st` or `nodes` with a value that is no number (reported as the `st`
    /// option).
    ExpectedNumberForSt,
    /// `timemargin` with a value that is no number.
    ExpectedNumberForTimeMargin,
    /// `restart` with a value other than `on` and `off`.
    InvalidRestart,
    /// `ponder` with a value that names no ponder mode.
    InvalidPonder,
    /// `proto` with a value other than `usi`.
    InvalidProto,
    /// An option name that is not known.
    UnknownOption,
}

/// A refused engine option: why, and the option's name and value.
#[derive(Debug, Clone)]
pub struct EngineOptionError {
    pub kind: EngineOptionErrorKind,
    pub name: String,
    pub value: String,
}

/// Why option `name` is refused when it is.
pub open spec fn option_error_kind(name: Seq<char>) -> EngineOptionErrorKind {
    if name == "tc"@ {
        EngineOptionErrorKind::InvalidTimeControl
    } else if name == "st"@ || name == "nodes"@ {
        EngineOptionErrorKind::ExpectedNumberForSt
    } else if name == "timemargin"@ {
        EngineOptionErrorKind::ExpectedNumberForTimeMargin
    } else if name == "restart"@ {
        EngineOptionErrorKind::InvalidRestart
    } else if name == "ponder"@ {
        EngineOptionErrorKind::InvalidPonder
    } else if name == "proto"@ {
        EngineOptionErrorKind::InvalidProto
    } else {
        EngineOptionErrorKind::UnknownOption
    }
}

fn option_error(kind: EngineOptionErrorKind, name: &str, value: &str) -> (r: EngineOptionError)
    ensures
        r.kind == kind,
        r.name@ == name@,
        r.value@ == value@,
{
    EngineOptionError { kind, name: name.to_owned(), value: value.to_owned() }
}

/// The option names that set the time control.
pub open spec fn sets_time_control(name: Seq<char>) -> bool {
    name == "tc"@ || name == "st"@ || name == "nodes"@
}

/// `secs` seconds in milliseconds, or the longest time a clock holds
/// (`u64::MAX` ms) when that is more.
pub open spec fn seconds_to_ms_saturated(secs: nat) -> u64 {
    if secs * 1000 > u64::MAX {
        u64::MAX
    } else {
        (secs * 1000) as u64
    }
}

/// The engine configuration after option `name=value`, or `None` when the
/// option is refused.
pub open spec fn spec_engine_option(e: EngineOptionsView, name: Seq<char>, value: Seq<char>) -> Option<
    EngineOptionsView,
> {
    if name == "name"@ {
        Some(EngineOptionsView { name: Some(value), ..e })
    } else if name == "dir"@ {
        Some(EngineOptionsView { dir: value, ..e })
    } else if name == "cmd"@ {
        Some(EngineOptionsView { cmd: value, ..e })
    } else if name == "tc"@ {
        match spec_parse_tc(value) {
            Some(tc) => Some(EngineOptionsView { time_control: tc, ..e }),
            None => None,
        }
    } else if name == "st"@ {
        match spec_parse_unsigned(value, u64::MAX as nat) {
            Some(v) => Some(
                EngineOptionsView { time_control: TimeControl::MoveTime(seconds_to_ms_saturated(v)), ..e },
            ),
            None => None,
        }
    } else if name == "nodes"@ {
        match spec_parse_unsigned(value, u64::MAX as nat) {
            Some(v) => Some(EngineOptionsView { time_control: TimeControl::Nodes(v as u64), ..e }),
            None => None,
        }
    } else if name == "timemargin"@ {
        match spec_parse_unsigned(value, u64::MAX as nat) {
            Some(v) => Some(EngineOptionsView { time_margin: v as u64, ..e }),
            None => None,
        }
    } else if name == "restart"@ {
        if value == "on"@ {
            Some(EngineOptionsView { restart: true, ..e })
        } else if value == "off"@ {
            Some(EngineOptionsView { restart: false, ..e })
        } else {
            None
        }
    } else if name == "ponder"@ {
        match spec_parse_ponder(value) {
            Some(m) => Some(EngineOptionsView { ponder_mode: m, ..e }),
            None => None,
        }
    } else if name == "proto"@ {
        if value == "usi"@ {
            Some(e)
        } else {
            None
        }
    } else if spec_starts_with(name, "option."@) {
        Some(EngineOptionsView { usi_options: e.usi_options.push((name.skip(7), value)), ..e })
    } else {
        None
    }
}

/// The error that refuses option `name=value`.
pub open spec fn option_error_fits(err: EngineOptionError, name: Seq<char>, value: Seq<char>) -> bool {
    err.kind == option_error_kind(name) && err.name@ == name && err.value@ == value
}

/// Applies option `name=value` to an engine configuration; a refused option
/// leaves the configuration as it was.
pub fn apply_engine_option(engine: &mut EngineOptions, name: &str, value: &str) -> (r: Result<
    (),
    EngineOptionError,
>)
    ensures
        match spec_engine_option(old(engine)@, name@, value@) {
            Some(e) => r is Ok && final(engine)@ == e,
            None => r matches Err(err) && option_error_fits(err, name@, value@) && final(engine)@
                == old(engine)@,
        },
{
    proof {
        reveal_strlit("option.");
    }
    if str_eq(name, "name") {
        engine.builder.name = Some(value.to_owned());
    } else if str_eq(name, "dir") {
        engine.builder.dir = value.to_owned();
    } else if str_eq(name, "cmd") {
        engine.builder.cmd = value.to_owned();
    } else if str_eq(name, "tc") {
        match TimeControl::parse(value) {
            Some(tc) => {
                engine.time_control = tc;
            },
            None => {
                return Err(option_error(EngineOptionErrorKind::InvalidTimeControl, name, value));
            },
        }
    } else if str_eq(name, "st") {
        match parse_u64(value) {
            Some(v) => {
                let ms = if v > u64::MAX / 1000 {
                    u64::MAX
                } else {
                    v * 1000
                };
                engine.time_control = TimeControl::MoveTime(ms);
            },
            None => {
                return Err(option_error(EngineOptionErrorKind::ExpectedNumberForSt, name, value));
            },
        }
    } else if str_eq(name, "nodes") {
        match parse_u64(value) {
            Some(v) => {
                engine.time_control = TimeControl::Nodes(v);
            },
            None => {
                return Err(option_error(EngineOptionErrorKind::ExpectedNumberForSt, name, value));
            },
        }
    } else if str_eq(name, "timemargin") {
        match parse_u64(value) {
            Some(v) => {
                engine.time_margin = v;
            },
            None => {
                return Err(option_error(EngineOptionErrorKind::ExpectedNumberForTimeMargin, name, value));
            },
        }
    } else if str_eq(name, "restart") {
        if str_eq(value, "on") {
            engine.restart = true;
        } else if str_eq(value, "off") {
            engine.restart = false;
        } else {
            return Err(option_error(EngineOptionErrorKind::InvalidRestart, name, value));
        }
    } else if str_eq(name, "ponder") {
        match PonderMode::parse(value) {
            Some(mode) => {
                engine.ponder_mode = mode;
            },
            None => {
                return Err(option_error(EngineOptionErrorKind::InvalidPonder, name, value));
            },
        }
    } else if str_eq(name, "proto") {
        if !str_eq(value, "usi") {
            return Err(option_error(EngineOptionErrorKind::InvalidProto, name, value));
        }
    } else {
        match strip_prefix(name, "option.") {
            Some(optionname) => {
                let ghost before = engine.builder.usi_options@;
                engine.builder.usi_options.push((optionname.to_owned(), value.to_owned()));
                assert(options_view(engine.builder.usi_options@) =~= options_view(before).push(
                    (name@.skip(7), value@),
                ));
            },
            None => {
                return Err(option_error(EngineOptionErrorKind::UnknownOption, name, value));
            },
        }
    }
    Ok(())
}

/// Applies option `name=value` to an engine configuration and tells whether
/// it was accepted; a refused option leaves the configuration as it was.
pub fn parse_engine_option(engine: &mut EngineOptions, name: &str, value: &str) -> (r: bool)
    ensures
        r == spec_engine_option(old(engine)@, name@, value@) is Some,
        match spec_engine_option(old(engine)@, name@, value@) {
            Some(e) => final(engine)@ == e,
            None => final(engine)@ == old(engine)@,
        },
{
    apply_engine_option(engine, name, value).is_ok()
}

/// Whether option `name` sets a time control on an engine that already has
/// one, which earns a warning.
pub fn warns_multiple_time_controls(engine: &EngineOptions, name: &str) -> (r: bool)
    ensures
        r == (sets_time_control(name@) && engine.time_control != TimeControl::Unlimited),
{
    (str_eq(name, "tc") || str_eq(name, "st") || str_eq(name, "nodes")) && !matches!(
        engine.time_control,
        TimeControl::Unlimited
    )
}

} // verus!

verus! {

/// Whether the options already switch USI pondering on: the last
/// `USI_Ponder` value is `true` in some ASCII case.
pub open spec fn usi_ponder_enabled(opts: Seq<(Seq<char>, Seq<char>)>) -> bool {
    match last_value_view(opts, "USI_Ponder"@) {
        Some(v) => ascii_lowercase(v) == "true"@,
        None => false,
    }
}

/// The engine configuration once pondering is switched on in the engine
/// itself: an engine that ponders gets `USI_Ponder=true` unless it already
/// has it.
pub open spec fn spec_apply_ponder(e: EngineOptionsView) -> EngineOptionsView {
    if e.ponder_mode == PonderMode::Off || usi_ponder_enabled(e.usi_options) {
        e
    } else {
        EngineOptionsView { usi_options: e.usi_options.push(("USI_Ponder"@, "true"@)), ..e }
    }
}

/// Switches USI pondering on in an engine that ponders.
pub fn apply_ponder_engine_options(engine: &mut EngineOptions)
    ensures
        final(engine)@ == spec_apply_ponder(old(engine)@),
{
    if engine.ponder_mode == PonderMode::Off {
        return;
    }
    proof {
        lemma_last_value_view(engine.builder.usi_options@, "USI_Ponder"@);
        reveal_strlit("true");
    }
    let ponder_is_enabled = match engine.builder.get_usi_option_value("USI_Ponder") {
        Some(value) => matches_lower(value, "true"),
        None => false,
    };
    if !ponder_is_enabled {
        let ghost before = engine.builder.usi_options@;
        engine.builder.usi_options.push(("USI_Ponder".to_owned(), "true".to_owned()));
        assert(options_view(engine.builder.usi_options@) =~= options_view(before).push(
            ("USI_Ponder"@, "true"@),
        ));
    }
}

/// After pondering is switched on, an engine that ponders has USI pondering
/// enabled, and switching it on again changes nothing.
pub proof fn lemma_apply_ponder_enables(e: EngineOptionsView)
    ensures
        spec_apply_ponder(e).ponder_mode != PonderMode::Off ==> usi_ponder_enabled(
            spec_apply_ponder(e).usi_options,
        ),
        spec_apply_ponder(spec_apply_ponder(e)) == spec_apply_ponder(e),
{
    reveal_strlit("true");
    let opts = e.usi_options.push(("USI_Ponder"@, "true"@));
    assert(opts.drop_last() =~= e.usi_options);
    lemma_lower_literal("true"@);
}

/// The time controls under which early pondering can send clock arguments
/// with `ponderhit`.
pub open spec fn spec_has_early_ponder_clock(e: EngineOptionsView) -> bool {
    e.time_control is MoveTime || e.time_control is Byoyomi || e.time_control is Fischer
}

/// Whether the engine's time control is a clock (Fischer, byoyomi or move time).
pub fn has_early_ponder_clock(engine: &EngineOptions) -> (r: bool)
    ensures
        r == spec_has_early_ponder_clock(engine@),
{
    matches!(
        engine.time_control,
        TimeControl::MoveTime(_) | TimeControl::Byoyomi { .. } | TimeControl::Fischer { .. }
    )
}

} // verus!

verus! {

/// `libc::CPU_SETSIZE`, the number of CPUs that a CPU set holds. Its exact
/// value depends on the C library the program is built for (1024 with
/// glibc, 128 or 1024 with musl, 32 on 32-bit Android); every target that
/// defines it has room for at least 32 CPUs, which is what is stated.
#[verifier::external_body]
pub(crate) fn cpu_set_size() -> (r: usize)
    ensures
        r >= 32,
{
    libc::CPU_SETSIZE as usize
}

/// The message for a CPU number at or above the CPU set size.
pub open spec fn msg_cpu_exceeds(cpu: nat, limit: nat) -> Seq<char> {
    "CPU "@ + decimal_chars(cpu) + " exceeds the Linux CPU affinity limit "@ + decimal_chars(limit)
}

/// The message for a CPU listed twice.
pub open spec fn msg_cpu_duplicated(cpu: nat) -> Seq<char> {
    "CPU "@ + decimal_chars(cpu) + " is duplicated in the affinity list"@
}

/// Adds the CPUs `cpu..=end` to `acc`, in order.
pub open spec fn cpu_range(cpu: nat, end: nat, acc: Seq<usize>, limit: nat) -> Result<Seq<usize>, Seq<char>>
    decreases end + 1 - cpu,
{
    if cpu > end {
        Ok(acc)
    } else if cpu >= limit {
        Err(msg_cpu_exceeds(cpu, limit))
    } else if acc.contains(cpu as usize) {
        Err(msg_cpu_duplicated(cpu))
    } else {
        cpu_range(cpu + 1, end, acc.push(cpu as usize), limit)
    }
}

/// Adds the CPUs of one entry of the list `whole` (a number or an ascending
/// range `a-b`) to `acc`.
pub open spec fn cpu_entry(part: Seq<char>, whole: Seq<char>, acc: Seq<usize>, limit: nat) -> Result<Seq<usize>, Seq<char>> {
    if part.len() == 0 {
        Err("Invalid empty CPU entry in affinity list "@ + debug_chars(whole))
    } else {
        match spec_split_once(part, '-') {
            Some((s, e)) => match (
                spec_parse_unsigned(s, usize::MAX as nat),
                spec_parse_unsigned(e, usize::MAX as nat),
            ) {
                (Some(a), Some(b)) => if a > b {
                    Err("CPU range must be ascending: "@ + debug_chars(part))
                } else {
                    cpu_range(a, b, acc, limit)
                },
                _ => Err("Invalid CPU range "@ + debug_chars(part)),
            },
            None => match spec_parse_unsigned(part, usize::MAX as nat) {
                Some(c) => cpu_range(c, c, acc, limit),
                None => Err("Invalid CPU number "@ + debug_chars(part)),
            },
        }
    }
}

/// Adds the CPUs of the comma-separated entries of `rest` to `acc`.
pub open spec fn cpu_entries(rest: Seq<char>, whole: Seq<char>, acc: Seq<usize>, limit: nat) -> Result<Seq<usize>, Seq<char>>
    decreases rest.len(),
{
    match spec_split_once(rest, ',') {
        Some((part, tail)) => {
            proof {
                lemma_split_once_len(rest, ',');
            }
            match cpu_entry(part, whole, acc, limit) {
                Ok(acc2) => cpu_entries(tail, whole, acc2, limit),
                Err(e) => Err(e),
            }
        },
        None => cpu_entry(rest, whole, acc, limit),
    }
}

/// The CPUs that a `-cpu-affinity` value lists, in the order given, or the
/// message that refuses it, for CPU sets of `limit` CPUs.
pub open spec fn spec_parse_cpu_list(value: Seq<char>, limit: nat) -> Result<Seq<usize>, Seq<char>> {
    if value.len() == 0 {
        Err("CPU affinity list must not be empty"@)
    } else {
        cpu_entries(value, value, Seq::empty(), limit)
    }
}

/// A list of distinct CPUs, each below `limit`.
pub open spec fn distinct_below(v: Seq<usize>, limit: nat) -> bool {
    &&& v.no_duplicates()
    &&& forall|i: int| 0 <= i < v.len() ==> (#[trigger] v[i]) < limit
}

proof fn lemma_cpu_range_distinct(cpu: nat, end: nat, acc: Seq<usize>, limit: nat)
    requires
        distinct_below(acc, limit),
    ensures
        cpu_range(cpu, end, acc, limit) matches Ok(v) ==> distinct_below(v, limit),
    decreases end + 1 - cpu,
{
    if cpu <= end && cpu < limit && !acc.contains(cpu as usize) {
        let next = acc.push(cpu as usize);
        assert forall|i: int, j: int| 0 <= i < j < next.len() implies next[i] != next[j] by {
            if j == next.len() - 1 {
                assert(acc.contains(next[i]));
            }
        }
        lemma_cpu_range_distinct(cpu + 1, end, next, limit);
    }
}

proof fn lemma_cpu_entries_distinct(rest: Seq<char>, whole: Seq<char>, acc: Seq<usize>, limit: nat)
    requires
        distinct_below(acc, limit),
    ensures
        cpu_entries(rest, whole, acc, limit) matches Ok(v) ==> distinct_below(v, limit),
    decreases rest.len(),
{
    lemma_split_once_len(rest, ',');
    match spec_split_once(rest, ',') {
        Some((part, tail)) => {
            lemma_cpu_entry_distinct(part, whole, acc, limit);
            match cpu_entry(part, whole, acc, limit) {
                Ok(acc2) => lemma_cpu_entries_distinct(tail, whole, acc2, limit),
                Err(_) => {},
            }
        },
        None => lemma_cpu_entry_distinct(rest, whole, acc, limit),
    }
}

proof fn lemma_cpu_entry_distinct(part: Seq<char>, whole: Seq<char>, acc: Seq<usize>, limit: nat)
    requires
        distinct_below(acc, limit),
    ensures
        cpu_entry(part, whole, acc, limit) matches Ok(v) ==> distinct_below(v, limit),
{
    if part.len() > 0 {
        match spec_split_once(part, '-') {
            Some((s, e)) => match (
                spec_parse_unsigned(s, usize::MAX as nat),
                spec_parse_unsigned(e, usize::MAX as nat),
            ) {
                (Some(a), Some(b)) => lemma_cpu_range_distinct(a, b, acc, limit),
                _ => {},
            },
            None => match spec_parse_unsigned(part, usize::MAX as nat) {
                Some(c) => lemma_cpu_range_distinct(c, c, acc, limit),
                None => {},
            },
        }
    }
}

/// A CPU list that is accepted names no CPU twice and none beyond the CPU set.
pub proof fn lemma_cpu_list_distinct(value: Seq<char>, limit: nat)
    ensures
        spec_parse_cpu_list(value, limit) matches Ok(v) ==> distinct_below(v, limit),
{
    if value.len() > 0 {
        lemma_cpu_entries_distinct(value, value, Seq::empty(), limit);
    }
}

} // verus!

verus! {

fn contains_usize(v: &Vec<usize>, x: usize) -> (r: bool)
    ensures
        r == v@.contains(x),
{
    let mut i: usize = 0;
    while i < v.len()
        invariant
            i <= v@.len(),
            forall|j: int| 0 <= j < i ==> v@[j] != x,
        decreases v@.len() - i,
    {
        if v[i] == x {
            return true;
        }
        i = i + 1;
    }
    false
}

/// `lit` followed by `tail`.
fn message(lit: &str, tail: &str) -> (r: String)
    ensures
        r@ == lit@ + tail@,
{
    let mut s = String::new();
    push_str(&mut s, lit);
    push_str(&mut s, tail);
    assert(s@ =~= lit@ + tail@);
    s
}

fn add_cpu_range(start: usize, end: usize, cpus: &mut Vec<usize>, limit: usize) -> (r: Result<(), String>)
    ensures
        match cpu_range(start as nat, end as nat, old(cpus)@, limit as nat) {
            Ok(v) => r is Ok && final(cpus)@ == v,
            Err(m) => r matches Err(x) && x@ == m,
        },
{
    let mut cpu = start;
    while cpu <= end
        invariant
            cpu_range(start as nat, end as nat, old(cpus)@, limit as nat) == cpu_range(
                cpu as nat,
                end as nat,
                cpus@,
                limit as nat,
            ),
        decreases end + 1 - cpu,
    {
        if cpu >= limit {
            let mut s = String::new();
            push_str(&mut s, "CPU ");
            push_decimal(&mut s, cpu as u64);
            push_str(&mut s, " exceeds the Linux CPU affinity limit ");
            push_decimal(&mut s, limit as u64);
            assert(s@ =~= msg_cpu_exceeds(cpu as nat, limit as nat));
            return Err(s);
        }
        if contains_usize(cpus, cpu) {
            let mut s = String::new();
            push_str(&mut s, "CPU ");
            push_decimal(&mut s, cpu as u64);
            push_str(&mut s, " is duplicated in the affinity list");
            assert(s@ =~= msg_cpu_duplicated(cpu as nat));
            return Err(s);
        }
        cpus.push(cpu);
        cpu = cpu + 1;
    }
    Ok(())
}

fn add_cpu_entry(part: &str, whole: &str, cpus: &mut Vec<usize>, limit: usize) -> (r: Result<(), String>)
    ensures
        match cpu_entry(part@, whole@, old(cpus)@, limit as nat) {
            Ok(v) => r is Ok && final(cpus)@ == v,
            Err(m) => r matches Err(x) && x@ == m,
        },
{
    if part.unicode_len() == 0 {
        return Err(message("Invalid empty CPU entry in affinity list ", debug_string(whole).as_str()));
    }
    match split_once(part, '-') {
        Some((s, e)) => match (parse_usize(s), parse_usize(e)) {
            (Some(a), Some(b)) => if a > b {
                Err(message("CPU range must be ascending: ", debug_string(part).as_str()))
            } else {
                add_cpu_range(a, b, cpus, limit)
            },
            _ => Err(message("Invalid CPU range ", debug_string(part).as_str())),
        },
        None => match parse_usize(part) {
            Some(c) => add_cpu_range(c, c, cpus, limit),
            None => Err(message("Invalid CPU number ", debug_string(part).as_str())),
        },
    }
}

/// Reads a `-cpu-affinity` value for CPU sets of `limit` CPUs: comma-separated
/// CPU numbers and ascending ranges `a-b`, kept in the order given; refused
/// when empty, malformed, descending, beyond the CPU set, or naming a CPU twice.
pub fn parse_cpu_list_with_limit(value: &str, limit: usize) -> (r: Result<Vec<usize>, String>)
    ensures
        match spec_parse_cpu_list(value@, limit as nat) {
            Ok(v) => r matches Ok(x) && x@ == v,
            Err(m) => r matches Err(x) && x@ == m,
        },
{
    if value.unicode_len() == 0 {
        return Err("CPU affinity list must not be empty".to_owned());
    }
    let mut cpus: Vec<usize> = Vec::new();
    let mut rest = value;
    loop
        invariant
            value@.len() > 0,
            cpu_entries(value@, value@, Seq::empty(), limit as nat) == cpu_entries(
                rest@,
                value@,
                cpus@,
                limit as nat,
            ),
        decreases rest@.len(),
    {
        proof {
            lemma_split_once_len(rest@, ',');
        }
        let ghost before = cpus@;
        match split_once(rest, ',') {
            Some((part, tail)) => {
                assert(cpu_entries(rest@, value@, before, limit as nat) == match cpu_entry(
                    part@,
                    value@,
                    before,
                    limit as nat,
                ) {
                    Ok(acc2) => cpu_entries(tail@, value@, acc2, limit as nat),
                    Err(e) => Err(e),
                });
                match add_cpu_entry(part, value, &mut cpus, limit) {
                    Ok(()) => {},
                    Err(m) => {
                        return Err(m);
                    },
                }
                rest = tail;
            },
            None => {
                assert(cpu_entries(rest@, value@, before, limit as nat) == cpu_entry(
                    rest@,
                    value@,
                    before,
                    limit as nat,
                ));
                return match add_cpu_entry(rest, value, &mut cpus, limit) {
                    Ok(()) => Ok(cpus),
                    Err(m) => Err(m),
                };
            },
        }
    }
}

/// Reads a `-cpu-affinity` value for the CPU sets of this system
/// (`libc::CPU_SETSIZE` CPUs); see `parse_cpu_list_with_limit`.
pub fn parse_cpu_list(value: &str) -> (r: Result<Vec<usize>, String>)
    ensures
        exists|limit: nat|
            limit >= 32 && match #[trigger] spec_parse_cpu_list(value@, limit) {
                Ok(v) => r matches Ok(x) && x@ == v,
                Err(m) => r matches Err(x) && x@ == m,
            },
        r matches Ok(x) ==> x@.no_duplicates(),
{
    let limit = cpu_set_size();
    let r = parse_cpu_list_with_limit(value, limit);
    proof {
        lemma_cpu_list_distinct(value@, limit as nat);
    }
    r
}

} // verus!

verus! {

/// The event and site named in game records.
#[derive(Debug, Clone)]
pub struct MetaDataOptions {
    pub event_name: String,
    pub site_name: String,
}

/// The opening book: its file, whether it is shuffled, and the one-based
/// index of the first opening.
#[derive(Debug, Clone)]
pub struct BookOptions {
    pub file: String,
    pub random_order: bool,
    pub start_index: usize,
}

/// The opening book settings with their strings as character sequences.
pub struct BookView {
    pub file: Seq<char>,
    pub random_order: bool,
    pub start_index: usize,
}

impl View for BookOptions {
    type V = BookView;

    open spec fn view(&self) -> BookView {
        BookView { file: self.file@, random_order: self.random_order, start_index: self.start_index }
    }
}

impl Default for BookOptions {
    fn default() -> (r: BookOptions)
        ensures
            r@ == (BookView { file: "<none>"@, random_order: false, start_index: 1 }),
    {
        BookOptions { file: "<none>".to_owned(), random_order: false, start_index: 1 }
    }
}

/// When a game is adjudicated a draw by its evaluations: from move number
/// `move_number`, after `move_count` consecutive moves scored within
/// `score` centipawns.
#[derive(Debug, Clone, Copy, PartialEq, Eq, Structural)]
pub struct DrawAdjudicationOptions {
    pub move_number: usize,
    pub move_count: usize,
    pub score: i32,
}

impl Default for DrawAdjudicationOptions {
    fn default() -> (r: DrawAdjudicationOptions)
        ensures
            r == (DrawAdjudicationOptions { move_number: 0, move_count: 1, score: 0 }),
    {
        DrawAdjudicationOptions { move_number: 0, move_count: 1, score: 0 }
    }
}

/// When a game is adjudicated a loss for a side by its evaluations: after
/// `move_count` consecutive moves scored at `score` centipawns or worse for
/// it (or mated), counting that side's moves only, or both sides' moves when
/// `two_sided`.
#[derive(Debug, Clone, Copy, PartialEq, Eq, Structural)]
pub struct ResignAdjudicationOptions {
    pub move_count: usize,
    pub score: i32,
    pub two_sided: bool,
}

impl Default for ResignAdjudicationOptions {
    fn default() -> (r: ResignAdjudicationOptions)
        ensures
            r == (ResignAdjudicationOptions { move_count: 1, score: 0, two_sided: false }),
    {
        ResignAdjudicationOptions { move_count: 1, score: 0, two_sided: false }
    }
}

/// The adjudication rules: a move limit, and draw and resign adjudication.
#[derive(Debug, Clone, Copy, PartialEq, Eq, Structural)]
pub struct AdjudicationOptions {
    pub max_moves: Option<u64>,
    pub draw: Option<DrawAdjudicationOptions>,
    pub resign: Option<ResignAdjudicationOptions>,
}

impl Default for AdjudicationOptions {
    fn default() -> (r: AdjudicationOptions)
        ensures
            r == (AdjudicationOptions { max_moves: Some(512), draw: None, resign: None }),
    {
        AdjudicationOptions { max_moves: Some(512), draw: None, resign: None }
    }
}

/// The parameters of a sequential probability ratio test as written on the
/// command line: the normalized Elo of both hypotheses and the two error
/// rates. Each is a valid floating-point literal, or absent for zero.
#[derive(Debug, Clone)]
pub struct SprtOptions {
    pub nelo0: Option<String>,
    pub nelo1: Option<String>,
    pub alpha: Option<String>,
    pub beta: Option<String>,
}

/// The test parameters with their texts as character sequences.
pub struct SprtView {
    pub nelo0: Option<Seq<char>>,
    pub nelo1: Option<Seq<char>>,
    pub alpha: Option<Seq<char>>,
    pub beta: Option<Seq<char>>,
}

/// The view of an optional string.
pub open spec fn opt_view(s: Option<String>) -> Option<Seq<char>> {
    match s {
        Some(x) => Some(x@),
        None => None,
    }
}

impl View for SprtOptions {
    type V = SprtView;

    open spec fn view(&self) -> SprtView {
        SprtView {
            nelo0: opt_view(self.nelo0),
            nelo1: opt_view(self.nelo1),
            alpha: opt_view(self.alpha),
            beta: opt_view(self.beta),
        }
    }
}

impl Default for SprtOptions {
    fn default() -> (r: SprtOptions)
        ensures
            r@ == (SprtView { nelo0: None, nelo1: None, alpha: None, beta: None }),
    {
        SprtOptions { nelo0: None, nelo1: None, alpha: None, beta: None }
    }
}

/// Where games are written, and which statistics the records keep.
#[derive(Debug, Clone)]
pub struct PgnOutOptions {
    pub file: String,
    pub track_nodes: bool,
    pub track_seldepth: bool,
    pub track_nps: bool,
    pub track_hashfull: bool,
    pub track_timeleft: bool,
    pub track_latency: bool,
}

/// The game record settings with the file name as a character sequence.
pub struct PgnView {
    pub file: Seq<char>,
    pub track_nodes: bool,
    pub track_seldepth: bool,
    pub track_nps: bool,
    pub track_hashfull: bool,
    pub track_timeleft: bool,
    pub track_latency: bool,
}

impl View for PgnOutOptions {
    type V = PgnView;

    open spec fn view(&self) -> PgnView {
        PgnView {
            file: self.file@,
            track_nodes: self.track_nodes,
            track_seldepth: self.track_seldepth,
            track_nps: self.track_nps,
            track_hashfull: self.track_hashfull,
            track_timeleft: self.track_timeleft,
            track_latency: self.track_latency,
        }
    }
}

/// The game record settings before any option changes them.
pub open spec fn default_pgn_view() -> PgnView {
    PgnView {
        file: Seq::empty(),
        track_nodes: false,
        track_seldepth: false,
        track_nps: false,
        track_hashfull: false,
        track_timeleft: false,
        track_latency: false,
    }
}

impl Default for PgnOutOptions {
    fn default() -> (r: PgnOutOptions)
        ensures
            r@ == default_pgn_view(),
    {
        let r = PgnOutOptions {
            file: String::new(),
            track_nodes: false,
            track_seldepth: false,
            track_nps: false,
            track_hashfull: false,
            track_timeleft: false,
            track_latency: false,
        };
        assert(r@.file =~= Seq::<char>::empty());
        r
    }
}

/// Everything the command line sets.
#[derive(Debug, Clone)]
pub struct CliOptions {
    pub engines: Vec<EngineOptions>,
    pub book: Option<BookOptions>,
    /// How many rounds to play (`-rounds`); no limit when none.
    pub games: Option<u64>,
    /// How many games each round has (`-games`, `-repeat`): an even number,
    /// each opening played with both colour assignments.
    pub rounds: u64,
    pub concurrency: u64,
    pub cpu_affinity: Option<Vec<usize>>,
    pub rand_seed: Option<u64>,
    pub meta: MetaDataOptions,
    pub pgn: Option<PgnOutOptions>,
    pub adjudication: AdjudicationOptions,
    pub report_interval: Option<u64>,
    pub sprt: Option<SprtOptions>,
}

/// Everything the command line sets, with strings as character sequences.
pub struct CliOptionsView {
    pub engines: Seq<EngineOptionsView>,
    pub book: Option<BookView>,
    pub games: Option<u64>,
    pub rounds: u64,
    pub concurrency: u64,
    pub cpu_affinity: Option<Seq<usize>>,
    pub rand_seed: Option<u64>,
    pub event_name: Seq<char>,
    pub site_name: Seq<char>,
    pub pgn: Option<PgnView>,
    pub adjudication: AdjudicationOptions,
    pub report_interval: Option<u64>,
    pub sprt: Option<SprtView>,
}

/// The views of a list of engine configurations.
pub open spec fn engines_view(v: Seq<EngineOptions>) -> Seq<EngineOptionsView> {
    Seq::new(v.len(), |i: int| v[i]@)
}

impl View for CliOptions {
    type V = CliOptionsView;

    open spec fn view(&self) -> CliOptionsView {
        CliOptionsView {
            engines: engines_view(self.engines@),
            book: match self.book {
                Some(b) => Some(b@),
                None => None,
            },
            games: self.games,
            rounds: self.rounds,
            concurrency: self.concurrency,
            cpu_affinity: match self.cpu_affinity {
                Some(c) => Some(c@),
                None => None,
            },
            rand_seed: self.rand_seed,
            event_name: self.meta.event_name@,
            site_name: self.meta.site_name@,
            pgn: match self.pgn {
                Some(p) => Some(p@),
                None => None,
            },
            adjudication: self.adjudication,
            report_interval: self.report_interval,
            sprt: match self.sprt {
                Some(s) => Some(s@),
                None => None,
            },
        }
    }
}

/// The settings before the command line changes any.
pub open spec fn default_cli_view() -> CliOptionsView {
    CliOptionsView {
        engines: Seq::empty(),
        book: None,
        games: None,
        rounds: 2,
        concurrency: 1,
        cpu_affinity: None,
        rand_seed: None,
        event_name: "?"@,
        site_name: "?"@,
        pgn: None,
        adjudication: AdjudicationOptions { max_moves: Some(512), draw: None, resign: None },
        report_interval: Some(10),
        sprt: None,
    }
}

impl Default for CliOptions {
    fn default() -> (r: CliOptions)
        ensures
            r@ == default_cli_view(),
    {
        let r = CliOptions {
            engines: Vec::new(),
            book: None,
            games: None,
            rounds: 2,
            concurrency: 1,
            cpu_affinity: None,
            rand_seed: None,
            meta: MetaDataOptions { event_name: "?".to_owned(), site_name: "?".to_owned() },
            pgn: None,
            adjudication: AdjudicationOptions::default(),
            report_interval: Some(10),
            sprt: None,
        };
        assert(r@.engines =~= Seq::<EngineOptionsView>::empty());
        r
    }
}

} // verus!

verus! {

/// The message for a CPU that the process may not run on.
pub open spec fn msg_cpu_unavailable(cpu: nat) -> Seq<char> {
    "CPU "@ + decimal_chars(cpu) + " is not available in the shogitest process affinity"@
}

/// The message for the `k`-th engine (one-based) without a thread count.
pub open spec fn msg_threads_required(k: nat) -> Seq<char> {
    "Engine "@ + decimal_chars(k)
        + " must specify option.Threads as a positive integer when -cpu-affinity is used"@
}

/// The message for a CPU list of the wrong length.
pub open spec fn msg_cpu_count(given: nat, required: nat, concurrency: nat, threads: nat) -> Seq<char> {
    "-cpu-affinity provides "@ + decimal_chars(given) + " CPUs, but "@ + decimal_chars(required)
        + " are required (concurrency "@ + decimal_chars(concurrency) + " x "@ + decimal_chars(
        threads,
    ) + " engine threads per game)"@
}

/// Checks the CPUs from position `i` on: none twice, each one the process may
/// run on (`allowed[cpu]`).
pub open spec fn cpu_checks(cpus: Seq<usize>, allowed: Seq<bool>, i: nat) -> Result<(), Seq<char>>
    decreases cpus.len() - i,
{
    if i >= cpus.len() {
        Ok(())
    } else {
        let c = cpus[i as int];
        if cpus.take(i as int).contains(c) {
            Err(msg_cpu_duplicated(c as nat))
        } else if !allowed[c as int] {
            Err(msg_cpu_unavailable(c as nat))
        } else {
            cpu_checks(cpus, allowed, i + 1)
        }
    }
}

/// The threads of the engines from position `i` on, added to `acc`.
pub open spec fn thread_sum(engines: Seq<EngineOptionsView>, i: nat, acc: nat) -> Result<nat, Seq<char>>
    decreases engines.len() - i,
{
    if i >= engines.len() {
        Ok(acc)
    } else {
        match spec_thread_count(engines[i as int]) {
            None => Err(msg_threads_required(i + 1)),
            Some(t) => if acc + t > usize::MAX {
                Err("Engine thread count overflow"@)
            } else {
                thread_sum(engines, i + 1, acc + t as nat)
            },
        }
    }
}

/// Whether a CPU affinity list fits the configuration: distinct CPUs that the
/// process may run on, exactly one per engine thread of each concurrent game.
pub open spec fn spec_validate_cpu_affinity(o: CliOptionsView, allowed: Seq<bool>) -> Result<(), Seq<char>> {
    match o.cpu_affinity {
        None => Ok(()),
        Some(cpus) => match cpu_checks(cpus, allowed, 0) {
            Err(e) => Err(e),
            Ok(_) => match thread_sum(o.engines, 0, 0) {
                Err(e) => Err(e),
                Ok(tpg) => if o.concurrency > usize::MAX {
                    Err("Concurrency does not fit in usize"@)
                } else if tpg * o.concurrency > usize::MAX {
                    Err("CPU affinity requirement overflow"@)
                } else if cpus.len() != tpg * o.concurrency {
                    Err(msg_cpu_count(cpus.len(), tpg * (o.concurrency as nat), o.concurrency as nat, tpg))
                } else {
                    Ok(())
                },
            },
        },
    }
}

/// Checks the CPU affinity list against the CPUs the process may run on
/// (`allowed[cpu]`, as the process's affinity mask gives them) and against
/// the engines' thread counts and the concurrency.
pub fn validate_cpu_affinity(options: &CliOptions, allowed: &Vec<bool>) -> (r: Result<(), String>)
    requires
        options.cpu_affinity matches Some(c) ==> forall|i: int|
            0 <= i < c@.len() ==> (#[trigger] c@[i]) < allowed@.len(),
    ensures
        match spec_validate_cpu_affinity(options@, allowed@) {
            Ok(_) => r is Ok,
            Err(m) => r matches Err(x) && x@ == m,
        },
{
    let cpus = match &options.cpu_affinity {
        None => {
            return Ok(());
        },
        Some(c) => c,
    };
    let mut i: usize = 0;
    let mut seen: Vec<usize> = Vec::new();
    while i < cpus.len()
        invariant
            options.cpu_affinity == Some(*cpus),
            forall|k: int| 0 <= k < cpus@.len() ==> (#[trigger] cpus@[k]) < allowed@.len(),
            i <= cpus@.len(),
            seen@ == cpus@.take(i as int),
            cpu_checks(cpus@, allowed@, 0) == cpu_checks(cpus@, allowed@, i as nat),
        decreases cpus@.len() - i,
    {
        let cpu = cpus[i];
        if contains_usize(&seen, cpu) {
            let mut s = String::new();
            push_str(&mut s, "CPU ");
            push_decimal(&mut s, cpu as u64);
            push_str(&mut s, " is duplicated in the affinity list");
            assert(s@ =~= msg_cpu_duplicated(cpu as nat));
            return Err(s);
        }
        if !allowed[cpu] {
            let mut s = String::new();
            push_str(&mut s, "CPU ");
            push_decimal(&mut s, cpu as u64);
            push_str(&mut s, " is not available in the shogitest process affinity");
            assert(s@ =~= msg_cpu_unavailable(cpu as nat));
            return Err(s);
        }
        seen.push(cpu);
        i = i + 1;
        assert(seen@ =~= cpus@.take(i as int));
    }
    assert(cpu_checks(cpus@, allowed@, i as nat) == Ok::<(), Seq<char>>(()));
    let mut threads_per_game: usize = 0;
    let mut k: usize = 0;
    let ghost ev = options@.engines;
    while k < options.engines.len()
        invariant
            ev == options@.engines,
            options.cpu_affinity == Some(*cpus),
            cpu_checks(cpus@, allowed@, 0) == Ok::<(), Seq<char>>(()),
            k <= ev.len(),
            thread_sum(ev, 0, 0) == thread_sum(ev, k as nat, threads_per_game as nat),
        decreases ev.len() - k,
    {
        let threads = match options.engines[k].thread_count() {
            Some(t) => t,
            None => {
                let mut s = String::new();
                push_str(&mut s, "Engine ");
                push_decimal(&mut s, (k + 1) as u64);
                push_str(
                    &mut s,
                    " must specify option.Threads as a positive integer when -cpu-affinity is used",
                );
                assert(s@ =~= msg_threads_required((k + 1) as nat));
                return Err(s);
            },
        };
        threads_per_game = match threads_per_game.checked_add(threads) {
            Some(v) => v,
            None => {
                return Err("Engine thread count overflow".to_owned());
            },
        };
        k = k + 1;
    }
    if options.concurrency > usize::MAX as u64 {
        return Err("Concurrency does not fit in usize".to_owned());
    }
    let concurrency = options.concurrency as usize;
    let required = match threads_per_game.checked_mul(concurrency) {
        Some(v) => v,
        None => {
            return Err("CPU affinity requirement overflow".to_owned());
        },
    };
    if cpus.len() != required {
        let mut s = String::new();
        push_str(&mut s, "-cpu-affinity provides ");
        push_decimal(&mut s, cpus.len() as u64);
        push_str(&mut s, " CPUs, but ");
        push_decimal(&mut s, required as u64);
        push_str(&mut s, " are required (concurrency ");
        push_decimal(&mut s, concurrency as u64);
        push_str(&mut s, " x ");
        push_decimal(&mut s, threads_per_game as u64);
        push_str(&mut s, " engine threads per game)");
        assert(s@ =~= msg_cpu_count(
            cpus@.len(),
            required as nat,
            concurrency as nat,
            threads_per_game as nat,
        ));
        return Err(s);
    }
    Ok(())
}

} // verus!

verus! {

/// The sum of `s`.
pub open spec fn seq_sum(s: Seq<usize>) -> nat
    decreases s.len(),
{
    if s.len() == 0 {
        0
    } else {
        seq_sum(s.drop_last()) + s.last() as nat
    }
}

proof fn lemma_prefix_sum_le(s: Seq<usize>, k: int)
    requires
        0 <= k <= s.len(),
    ensures
        seq_sum(s.take(k)) <= seq_sum(s),
    decreases s.len(),
{
    if k < s.len() {
        assert(s.drop_last().take(k) =~= s.take(k));
        lemma_prefix_sum_le(s.drop_last(), k);
    } else {
        assert(s.take(k) =~= s);
    }
}

/// The CPUs that engine `engine` of a game in slot `slot` runs on, when each
/// engine has `threads[e]` threads: the slot's block of the list, one CPU
/// per thread of each game, and in it the engine's threads after those of
/// the engines before it.
pub open spec fn spec_engine_cpus(cpus: Seq<usize>, threads: Seq<usize>, slot: nat, engine: int) -> Seq<usize> {
    let start = slot * seq_sum(threads) + seq_sum(threads.take(engine));
    cpus.subrange(start as int, start + threads[engine])
}

/// The CPUs that engine `engine` of the game in slot `slot` is pinned to.
pub fn engine_cpus(cpus: &Vec<usize>, threads: &Vec<usize>, slot: usize, engine: usize) -> (r: Vec<usize>)
    requires
        engine < threads@.len(),
        (slot + 1) * seq_sum(threads@) <= cpus@.len(),
    ensures
        r@ == spec_engine_cpus(cpus@, threads@, slot as nat, engine as int),
{
    let ghost total = seq_sum(threads@);
    let n = cpus.len();
    let mut sum: usize = 0;
    let mut prefix: usize = 0;
    let mut i: usize = 0;
    proof {
        assert(threads@.take(0) =~= Seq::<usize>::empty());
        lemma_prefix_sum_le(threads@, threads@.len() as int);
        assert(slot * total <= (slot + 1) * total) by (nonlinear_arith);
        assert(total <= (slot + 1) * total) by (nonlinear_arith);
    }
    while i < threads.len()
        invariant
            i <= threads@.len(),
            engine < threads@.len(),
            total == seq_sum(threads@),
            total <= n,
            n == cpus@.len(),
            sum == seq_sum(threads@.take(i as int)),
            i > engine ==> prefix == seq_sum(threads@.take(engine as int)),
            i <= engine ==> prefix == 0,
        decreases threads@.len() - i,
    {
        proof {
            assert(threads@.take(i + 1).drop_last() =~= threads@.take(i as int));
            assert(seq_sum(threads@.take(i + 1)) == seq_sum(threads@.take(i as int)) + threads@[i as int]);
            lemma_prefix_sum_le(threads@, i + 1);
        }
        if i == engine {
            prefix = sum;
        }
        sum = sum + threads[i];
        i = i + 1;
    }
    assert(threads@.take(threads@.len() as int) =~= threads@);
    proof {
        lemma_prefix_sum_le(threads@, engine + 1);
        assert(threads@.take(engine + 1).drop_last() =~= threads@.take(engine as int));
        assert(seq_sum(threads@.take(engine + 1)) == seq_sum(threads@.take(engine as int)) + threads@[engine as int]);
        assert(slot * total + total == (slot + 1) * total) by (nonlinear_arith);
        assert(slot * total <= (slot + 1) * total) by (nonlinear_arith);
    }
    let start = slot * sum + prefix;
    let end = start + threads[engine];
    let mut out: Vec<usize> = Vec::new();
    let mut j = start;
    while j < end
        invariant
            start <= j <= end,
            end <= cpus@.len(),
            out@ == cpus@.subrange(start as int, j as int),
        decreases end - j,
    {
        out.push(cpus[j]);
        j = j + 1;
        assert(out@ =~= cpus@.subrange(start as int, j as int));
    }
    out
}

/// The message for an empty CPU list of an engine.
pub open spec fn msg_engine_affinity_empty() -> Seq<char> {
    "Engine CPU affinity must not be empty"@
}

/// The message for a CPU beyond the CPU set size.
pub open spec fn msg_engine_cpu_exceeds(cpu: nat, limit: nat) -> Seq<char> {
    "CPU "@ + decimal_chars(cpu) + " exceeds Linux CPU_SETSIZE "@ + decimal_chars(limit)
}

/// Whether an engine can be pinned to `cpus` in a CPU set of `limit` CPUs:
/// there must be some, each below the limit.
pub open spec fn spec_check_engine_cpus(cpus: Seq<usize>, limit: nat) -> Result<(), Seq<char>> {
    if cpus.len() == 0 {
        Err(msg_engine_affinity_empty())
    } else if exists|i: int| 0 <= i < cpus.len() && cpus[i] >= limit {
        let i = choose|i: int| 0 <= i < cpus.len() && cpus[i] >= limit && forall|j: int| 0 <= j < i ==> cpus[j] < limit;
        Err(msg_engine_cpu_exceeds(cpus[i] as nat, limit))
    } else {
        Ok(())
    }
}

/// Checks the CPUs an engine is to be pinned to, for CPU sets of `limit` CPUs.
pub fn check_engine_cpus_with_limit(cpus: &Vec<usize>, limit: usize) -> (r: Result<(), String>)
    ensures
        match spec_check_engine_cpus(cpus@, limit as nat) {
            Ok(_) => r is Ok,
            Err(m) => r matches Err(x) && x@ == m,
        },
{
    if cpus.len() == 0 {
        proof {
            reveal_strlit("Engine CPU affinity must not be empty");
        }
        return Err("Engine CPU affinity must not be empty".to_owned());
    }
    let mut i: usize = 0;
    while i < cpus.len()
        invariant
            i <= cpus@.len(),
            forall|j: int| 0 <= j < i ==> cpus@[j] < limit,
        decreases cpus@.len() - i,
    {
        if cpus[i] >= limit {
            proof {
                let k = choose|k: int| 0 <= k < cpus@.len() && cpus@[k] >= limit && forall|j: int|
                    0 <= j < k ==> cpus@[j] < limit;
                if k < i {
                    assert(cpus@[k] < limit);
                } else if k > i {
                    assert(cpus@[i as int] < limit);
                }
                reveal_strlit("CPU ");
                reveal_strlit(" exceeds Linux CPU_SETSIZE ");
            }
            let mut s = String::new();
            push_str(&mut s, "CPU ");
            push_decimal(&mut s, cpus[i] as u64);
            push_str(&mut s, " exceeds Linux CPU_SETSIZE ");
            push_decimal(&mut s, limit as u64);
            assert(s@ =~= msg_engine_cpu_exceeds(cpus@[i as int] as nat, limit as nat));
            return Err(s);
        }
        i = i + 1;
    }
    Ok(())
}

/// Checks the CPUs an engine is to be pinned to, for the CPU sets of this
/// system (`libc::CPU_SETSIZE` CPUs).
pub fn check_engine_cpus(cpus: &Vec<usize>) -> (r: Result<(), String>)
    ensures
        exists|limit: nat|
            limit >= 32 && match #[trigger] spec_check_engine_cpus(cpus@, limit) {
                Ok(_) => r is Ok,
                Err(m) => r matches Err(x) && x@ == m,
            },
{
    check_engine_cpus_with_limit(cpus, cpu_set_size())
}

} // verus!

verus! {

/// Early pondering takes a clock that tells the engine its time: every time
/// control but no limit at all and a node count (so Fischer, byoyomi and
/// move time all qualify).
pub proof fn lemma_early_ponder_clocks(e: EngineOptionsView)
    ensures
        spec_has_early_ponder_clock(e) <==> !(e.time_control is Unlimited || e.time_control is Nodes),
{
}

} // verus!
