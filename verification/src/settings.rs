//! The live analysis settings and the commands that read and change them.
//!
//! A refused command changes nothing.
use vstd::prelude::*;

use crate::double::{two_to, two_to_grows, Double, Single};
use crate::json::{fields_read_back, finite_or_null, finite_single_or_null, Json, JsonV};
use crate::mode::Mode;
use crate::text::{dec, decimal, lowercase, lowered, quote, quoted, str_eq};
use crate::wire::{
    bool_field, double_field, get_bool, get_double, get_str, get_uint, opt_u32, opt_u32_of,
    received_text, refusal_reply, refuse, str_field, u32_of, u32_value, uint_field,
};

verus! {

/// The frequency weighting of the band levels. `Off` and `Z` are the same
/// curve; the wire tells "not picked" from "picked Z".
#[derive(Clone, Copy, Debug, PartialEq, Eq, Structural)]
pub enum Weighting {
    Off,
    A,
    C,
    Z,
}

impl Weighting {
    pub open spec fn tag_text(self) -> Seq<char> {
        match self {
            Weighting::Off => "off"@,
            Weighting::A => "a"@,
            Weighting::C => "c"@,
            Weighting::Z => "z"@,
        }
    }

    /// The weighting of a name in lower case.
    pub open spec fn of_tag(tag: Seq<char>) -> Option<Weighting> {
        if tag == "off"@ {
            Some(Weighting::Off)
        } else if tag == "a"@ {
            Some(Weighting::A)
        } else if tag == "c"@ {
            Some(Weighting::C)
        } else if tag == "z"@ {
            Some(Weighting::Z)
        } else {
            None
        }
    }

    pub fn from_tag(tag: &str) -> (r: Option<Weighting>)
        ensures
            r == Weighting::of_tag(tag@),
    {
        if str_eq(tag, "off") {
            Some(Weighting::Off)
        } else if str_eq(tag, "a") {
            Some(Weighting::A)
        } else if str_eq(tag, "c") {
            Some(Weighting::C)
        } else if str_eq(tag, "z") {
            Some(Weighting::Z)
        } else {
            None
        }
    }

    pub fn tag(self) -> (r: &'static str)
        ensures
            r@ == self.tag_text(),
    {
        match self {
            Weighting::Off => "off",
            Weighting::A => "a",
            Weighting::C => "c",
            Weighting::Z => "z",
        }
    }

    /// Whether the curve changes any level.
    pub fn shapes(self) -> (r: bool)
        ensures
            r == (self == Weighting::A || self == Weighting::C),
    {
        match self {
            Weighting::A => true,
            Weighting::C => true,
            _ => false,
        }
    }
}

/// The time integration of the band levels.
#[derive(Clone, Copy, Debug, PartialEq, Eq, Structural)]
pub enum Integration {
    Off,
    Fast,
    Slow,
    Leq,
}

impl Integration {
    pub open spec fn tag_text(self) -> Seq<char> {
        match self {
            Integration::Off => "off"@,
            Integration::Fast => "fast"@,
            Integration::Slow => "slow"@,
            Integration::Leq => "leq"@,
        }
    }

    /// The integration of a name in lower case.
    pub open spec fn of_tag(tag: Seq<char>) -> Option<Integration> {
        if tag == "off"@ {
            Some(Integration::Off)
        } else if tag == "fast"@ {
            Some(Integration::Fast)
        } else if tag == "slow"@ {
            Some(Integration::Slow)
        } else if tag == "leq"@ {
            Some(Integration::Leq)
        } else {
            None
        }
    }

    pub fn from_tag(tag: &str) -> (r: Option<Integration>)
        ensures
            r == Integration::of_tag(tag@),
    {
        if str_eq(tag, "off") {
            Some(Integration::Off)
        } else if str_eq(tag, "fast") {
            Some(Integration::Fast)
        } else if str_eq(tag, "slow") {
            Some(Integration::Slow)
        } else if str_eq(tag, "leq") {
            Some(Integration::Leq)
        } else {
            None
        }
    }

    pub fn tag(self) -> (r: &'static str)
        ensures
            r@ == self.tag_text(),
    {
        match self {
            Integration::Off => "off",
            Integration::Fast => "fast",
            Integration::Slow => "slow",
            Integration::Leq => "leq",
        }
    }
}

/// What a running monitor reads each tick.
#[derive(Clone, Copy, Debug, PartialEq, Eq, Structural)]
pub struct MonitorParams {
    pub interval: Double,
    pub fft_n: u32,
    pub lf_fft_n: u32,
    pub crossover_hz: Single,
    pub active: bool,
}

/// The live settings.
#[derive(Clone, Copy, Debug, PartialEq, Eq, Structural)]
pub struct Settings {
    pub mode: Mode,
    pub cwt_sigma: Single,
    pub cwt_n_scales: u64,
    pub ioct_bpo: Option<u32>,
    pub weighting: Weighting,
    pub integration: Integration,
    /// One-shot: zero the Leq accumulators on the next tick.
    pub leq_reset_request: bool,
    /// One-shot: zero the loudness state on the next tick.
    pub loudness_reset_request: bool,
    pub mic_correction_enabled: bool,
    pub monitor: MonitorParams,
}

/// The bounds of `sigma`: 5 and 24.
pub const SIGMA_MIN: u32 = 0x40A0_0000;

pub const SIGMA_MAX: u32 = 0x41C0_0000;

/// The bounds of `n_scales`.
pub const N_SCALES_MIN: u64 = 64;

pub const N_SCALES_MAX: u64 = 8192;

/// The longest interval, 60 s, as a double.
pub const INTERVAL_MAX: u64 = 0x404E_0000_0000_0000;

/// `{"ok": true}`.
pub open spec fn ok_reply() -> JsonV {
    JsonV::obj().with("ok"@, JsonV::Bool(true))
}

/// `{"ok": true}`.
pub fn ok() -> (r: Json)
    ensures
        r@ == ok_reply(),
{
    Json::obj().with("ok", Json::Bool(true))
}

/// The reply that describes the analysis mode.
pub open spec fn mode_reply(s: Settings) -> JsonV {
    ok_reply().with("mode"@, JsonV::Str(s.mode.tag_text())).with(
        "sigma"@,
        finite_single_or_null(s.cwt_sigma),
    ).with("n_scales"@, JsonV::Uint(s.cwt_n_scales))
}

fn describe_mode(s: &Settings) -> (r: Json)
    ensures
        r@ == mode_reply(*s),
{
    ok().with("mode", Json::string(s.mode.tag())).with("sigma", Json::single(s.cwt_sigma)).with(
        "n_scales",
        Json::Uint(s.cwt_n_scales),
    )
}

/// The mode of an exact name; unlike `Mode::of_tag` an unknown name is none.
pub open spec fn known_mode(tag: Seq<char>) -> Option<Mode> {
    if tag == "fft"@ {
        Some(Mode::Fft)
    } else if tag == "cwt"@ {
        Some(Mode::Cwt)
    } else if tag == "cqt"@ {
        Some(Mode::Cqt)
    } else if tag == "reassigned"@ {
        Some(Mode::Reassigned)
    } else {
        None
    }
}

/// A count moved into its bounds.
pub open spec fn clamp_scales(n: u64) -> u64 {
    if n < N_SCALES_MIN {
        N_SCALES_MIN
    } else if n > N_SCALES_MAX {
        N_SCALES_MAX
    } else {
        n
    }
}

/// The settings after `set_analysis_mode` to `mode` with the optional
/// parameters of `cmd`.
pub open spec fn with_mode(s: Settings, mode: Mode, cmd: JsonV) -> Settings {
    Settings {
        mode,
        cwt_sigma: match double_field(cmd, "sigma"@) {
            Some(x) => x.narrowed().clamped(
                Single { bits: SIGMA_MIN },
                Single { bits: SIGMA_MAX },
            ),
            None => s.cwt_sigma,
        },
        cwt_n_scales: match uint_field(cmd, "n_scales"@) {
            Some(n) => clamp_scales(n),
            None => s.cwt_n_scales,
        },
        ..s
    }
}

/// What `set_analysis_mode` makes of the settings, and its reply.
pub open spec fn analysis_mode_set(
    before: Settings,
    cmd: JsonV,
    after: Settings,
    reply: JsonV,
) -> bool {
    match str_field(cmd, "mode"@) {
        None => after == before && reply == refusal_reply("missing 'mode' field"@),
        Some(tag) => match known_mode(tag) {
            None => after == before && reply == refusal_reply(
                "invalid mode '"@ + tag + "': expected 'fft', 'cwt', 'cqt', or 'reassigned'"@,
            ),
            Some(mode) => after == with_mode(before, mode, cmd) && reply == mode_reply(after),
        },
    }
}

/// Select the analysis mode; `sigma` and `n_scales` are moved into their
/// bounds.
pub fn set_analysis_mode(s: &mut Settings, cmd: &Json) -> (r: Json)
    ensures
        analysis_mode_set(*old(s), cmd@, *final(s), r@),
{
    let tag = match get_str(cmd, "mode") {
        None => return refuse("missing 'mode' field"),
        Some(t) => t,
    };
    let mode = if str_eq(tag, "fft") {
        Mode::Fft
    } else if str_eq(tag, "cwt") {
        Mode::Cwt
    } else if str_eq(tag, "cqt") {
        Mode::Cqt
    } else if str_eq(tag, "reassigned") {
        Mode::Reassigned
    } else {
        return refuse(
            "invalid mode '".to_owned().concat(tag).concat(
                "': expected 'fft', 'cwt', 'cqt', or 'reassigned'",
            ).as_str(),
        );
    };
    s.mode = mode;
    match get_double(cmd, "sigma") {
        Some(x) => {
            s.cwt_sigma = x.narrow().clamp_to(
                Single { bits: SIGMA_MIN },
                Single { bits: SIGMA_MAX },
            );
        },
        None => {},
    }
    match get_uint(cmd, "n_scales") {
        Some(n) => {
            s.cwt_n_scales = if n < N_SCALES_MIN {
                N_SCALES_MIN
            } else if n > N_SCALES_MAX {
                N_SCALES_MAX
            } else {
                n
            };
        },
        None => {},
    }
    describe_mode(s)
}

pub fn get_analysis_mode(s: &Settings) -> (r: Json)
    ensures
        r@ == mode_reply(*s),
{
    describe_mode(s)
}

/// Whether a band resolution is offered.
pub open spec fn bpo_offered(n: u32) -> bool {
    n == 0 || n == 1 || n == 3 || n == 6 || n == 12 || n == 24
}

/// The refusal of a band resolution.
pub open spec fn bpo_refusal(shown: Seq<char>) -> JsonV {
    refusal_reply(
        "invalid bpo "@ + shown + ": expected 0, 1, 3, 6, 12, or 24"@,
    )
}

fn refuse_bpo(shown: &str) -> (r: Json)
    ensures
        r@ == bpo_refusal(shown@),
{
    refuse(
        "invalid bpo ".to_owned().concat(shown).concat(
            ": expected 0, 1, 3, 6, 12, or 24",
        ).as_str(),
    )
}

/// What `set_ioct_bpo` makes of the settings, and its reply.
pub open spec fn bpo_set(
    before: Settings,
    cmd: JsonV,
    after: Settings,
    reply: JsonV,
) -> bool {
    match cmd.field("bpo"@) {
        None => after == before && reply == refusal_reply("missing 'bpo' field"@),
        Some(raw) => match u32_of(raw) {
            None => after == before && reply == bpo_refusal(received_text(raw)),
            Some(n) => if bpo_offered(n) {
                &&& after == (Settings {
                    ioct_bpo: if n == 0 {
                        None
                    } else {
                        Some(n)
                    },
                    ..before
                })
                &&& reply == ok_reply().with("bpo"@, JsonV::Uint(n as u64))
            } else {
                after == before && reply == bpo_refusal(dec(n as nat))
            },
        },
    }
}

/// Select the bands per octave of the fractional-octave frames; 0 disables
/// them.
pub fn set_ioct_bpo(s: &mut Settings, cmd: &Json) -> (r: Json)
    ensures
        bpo_set(*old(s), cmd@, *final(s), r@),
{
    let raw = match cmd.get("bpo") {
        None => return refuse("missing 'bpo' field"),
        Some(v) => v,
    };
    match u32_value(raw, "bpo") {
        Err(e) => refuse_bpo(e.received.as_str()),
        Ok(n) => {
            if n == 0 || n == 1 || n == 3 || n == 6 || n == 12 || n == 24 {
                s.ioct_bpo = if n == 0 {
                    None
                } else {
                    Some(n)
                };
                ok().with("bpo", Json::Uint(n as u64))
            } else {
                refuse_bpo(decimal(n as u64).as_str())
            }
        },
    }
}

/// The reply that tells the band weighting.
pub open spec fn weighting_reply(w: Weighting) -> JsonV {
    ok_reply().with("mode"@, JsonV::Str(w.tag_text()))
}

/// What `set_band_weighting` makes of the settings, and its reply.
pub open spec fn weighting_set(
    before: Settings,
    cmd: JsonV,
    after: Settings,
    reply: JsonV,
) -> bool {
    match str_field(cmd, "mode"@) {
        None => after == before && reply == refusal_reply("missing 'mode' field"@),
        Some(raw) => match Weighting::of_tag(lowered(raw)) {
            None => after == before && reply == refusal_reply(
                "invalid mode "@ + quoted(lowered(raw)) + ": expected off, a, c, or z"@,
            ),
            Some(w) => after == (Settings { weighting: w, ..before }) && reply == weighting_reply(
                w,
            ),
        },
    }
}

/// Select the band weighting, in any case; the reply echoes lower case.
pub fn set_band_weighting(s: &mut Settings, cmd: &Json) -> (r: Json)
    ensures
        weighting_set(*old(s), cmd@, *final(s), r@),
{
    let mode = match get_str(cmd, "mode") {
        None => return refuse("missing 'mode' field"),
        Some(m) => lowercase(m),
    };
    match Weighting::from_tag(mode.as_str()) {
        None => refuse(
            "invalid mode ".to_owned().concat(quote(mode.as_str()).as_str()).concat(
                ": expected off, a, c, or z",
            ).as_str(),
        ),
        Some(w) => {
            s.weighting = w;
            ok().with("mode", Json::string(w.tag()))
        },
    }
}

pub fn get_band_weighting(s: &Settings) -> (r: Json)
    ensures
        r@ == weighting_reply(s.weighting),
{
    ok().with("mode", Json::string(s.weighting.tag()))
}

/// The reply that tells the time integration.
pub open spec fn integration_reply(m: Integration) -> JsonV {
    ok_reply().with("mode"@, JsonV::Str(m.tag_text()))
}

/// What `set_time_integration` makes of the settings, and its reply.
pub open spec fn integration_set(
    before: Settings,
    cmd: JsonV,
    after: Settings,
    reply: JsonV,
) -> bool {
    match str_field(cmd, "mode"@) {
        None => after == before && reply == refusal_reply("missing 'mode' field"@),
        Some(raw) => match Integration::of_tag(lowered(raw)) {
            None => after == before && reply == refusal_reply(
                "invalid mode "@ + quoted(lowered(raw)) + ": expected off, fast, slow, or leq"@,
            ),
            Some(m) => {
                &&& after == (Settings {
                    integration: m,
                    leq_reset_request: before.leq_reset_request || m == Integration::Leq,
                    ..before
                })
                &&& reply == integration_reply(m)
            },
        },
    }
}

/// Select the time integration, in any case. Selecting `leq` starts a fresh
/// accumulation.
pub fn set_time_integration(s: &mut Settings, cmd: &Json) -> (r: Json)
    ensures
        integration_set(*old(s), cmd@, *final(s), r@),
{
    let mode = match get_str(cmd, "mode") {
        None => return refuse("missing 'mode' field"),
        Some(m) => lowercase(m),
    };
    match Integration::from_tag(mode.as_str()) {
        None => refuse(
            "invalid mode ".to_owned().concat(quote(mode.as_str()).as_str()).concat(
                ": expected off, fast, slow, or leq",
            ).as_str(),
        ),
        Some(m) => {
            s.integration = m;
            if m == Integration::Leq {
                s.leq_reset_request = true;
            }
            ok().with("mode", Json::string(m.tag()))
        },
    }
}

pub fn get_time_integration(s: &Settings) -> (r: Json)
    ensures
        r@ == integration_reply(s.integration),
{
    ok().with("mode", Json::string(s.integration.tag()))
}

/// Zero the Leq accumulators on the next tick.
pub fn reset_leq(s: &mut Settings) -> (r: Json)
    ensures
        *final(s) == (Settings { leq_reset_request: true, ..*old(s) }),
        r@ == ok_reply(),
{
    s.leq_reset_request = true;
    ok()
}

/// Zero the loudness state on the next tick.
pub fn reset_loudness(s: &mut Settings) -> (r: Json)
    ensures
        *final(s) == (Settings { loudness_reset_request: true, ..*old(s) }),
        r@ == ok_reply(),
{
    s.loudness_reset_request = true;
    ok()
}

/// What `set_mic_correction_enabled` makes of the settings, and its reply.
pub open spec fn mic_correction_set(
    before: Settings,
    cmd: JsonV,
    after: Settings,
    reply: JsonV,
) -> bool {
    let on = match bool_field(cmd, "enabled"@) {
        Some(b) => b,
        None => true,
    };
    &&& after == (Settings { mic_correction_enabled: on, ..before })
    &&& reply == ok_reply().with("enabled"@, JsonV::Bool(on))
}

/// Switch the mic-curve correction; it is on unless the request says off.
pub fn set_mic_correction_enabled(s: &mut Settings, cmd: &Json) -> (r: Json)
    ensures
        mic_correction_set(*old(s), cmd@, *final(s), r@),
{
    let on: bool = match get_bool(cmd, "enabled") {
        Some(b) => b,
        None => true,
    };
    s.mic_correction_enabled = on;
    ok().with("enabled", Json::Bool(on))
}

/// Above zero and at most 60 s.
pub open spec fn interval_ok(x: Double) -> bool {
    Double { bits: 0 }.below(x) && x.at_most(Double { bits: INTERVAL_MAX })
}

/// Whether an interval is accepted.
pub fn valid_interval(x: Double) -> (r: bool)
    ensures
        r == interval_ok(x),
{
    Double::new(0).lt(x) && x.le(Double::new(INTERVAL_MAX))
}

/// A power of two from 256 to 131072.
pub open spec fn fft_n_ok(n: u32) -> bool {
    n == 256 || n == 512 || n == 1024 || n == 2048 || n == 4096 || n == 8192 || n == 16384 || n
        == 32768 || n == 65536 || n == 131072
}

/// Whether an FFT length is accepted.
pub fn valid_fft_n(n: u32) -> (r: bool)
    ensures
        r == fft_n_ok(n),
{
    n == 256 || n == 512 || n == 1024 || n == 2048 || n == 4096 || n == 8192 || n == 16384 || n
        == 32768 || n == 65536 || n == 131072
}

/// Every accepted FFT length is a power of two, and every power of two in
/// range is accepted.
pub proof fn fft_lengths_are_the_powers_of_two(n: u32)
    ensures
        fft_n_ok(n) <==> 256 <= n <= 131072 && exists|k: nat|
            n == #[trigger] two_to(k),
{
    reveal_with_fuel(two_to, 19);
    if fft_n_ok(n) {
        assert(two_to(8) == 256);
        assert(two_to(9) == 512);
        assert(two_to(10) == 1024);
        assert(two_to(11) == 2048);
        assert(two_to(12) == 4096);
        assert(two_to(13) == 8192);
        assert(two_to(14) == 16384);
        assert(two_to(15) == 32768);
        assert(two_to(16) == 65536);
        assert(two_to(17) == 131072);
    } else if 256 <= n <= 131072 {
        assert forall|k: nat| n != #[trigger] two_to(k) by {
            powers_in_range(k);
        }
    }
}

proof fn powers_in_range(k: nat)
    ensures
        256 <= two_to(k) <= 131072 ==> fft_n_ok(two_to(k) as u32),
{
    reveal_with_fuel(two_to, 19);
    if k >= 18 {
        two_to_grows(18, k);
    }
}

/// The refusal of a bad FFT length.
pub open spec fn fft_n_refusal() -> JsonV {
    refusal_reply("fft_n must be power of 2 in [256, 131072]"@)
}

/// Why live parameters are refused: the FFT length's type, then the interval,
/// then the FFT length's value, then the absence of a monitor.
pub open spec fn params_refusal(p: MonitorParams, cmd: JsonV) -> Option<JsonV> {
    let interval = double_field(cmd, "interval"@);
    match opt_u32_of(cmd, "fft_n"@) {
        Err(_) => Some(fft_n_refusal()),
        Ok(fft_n) => if interval is Some && !interval_ok(interval->0) {
            Some(refusal_reply("interval must be > 0 and <= 60"@))
        } else if fft_n is Some && !fft_n_ok(fft_n->0) {
            Some(fft_n_refusal())
        } else if !p.active {
            Some(refusal_reply("no active monitor"@))
        } else {
            None
        },
    }
}

/// The parameters after an accepted request.
pub open spec fn params_after(p: MonitorParams, cmd: JsonV) -> MonitorParams {
    MonitorParams {
        interval: match double_field(cmd, "interval"@) {
            Some(x) => x,
            None => p.interval,
        },
        fft_n: match opt_u32_of(cmd, "fft_n"@) {
            Ok(Some(n)) => n,
            _ => p.fft_n,
        },
        ..p
    }
}

/// What `set_monitor_params` makes of the settings, and its reply.
pub open spec fn params_set(
    before: Settings,
    cmd: JsonV,
    after: Settings,
    reply: JsonV,
) -> bool {
    match params_refusal(before.monitor, cmd) {
        Some(e) => after == before && reply == e,
        None => {
            let p = params_after(before.monitor, cmd);
            &&& after == (Settings { monitor: p, ..before })
            &&& reply == ok_reply().with("interval"@, finite_or_null(p.interval)).with(
                "fft_n"@,
                JsonV::Uint(p.fft_n as u64),
            ).with("lf_fft_n"@, JsonV::Uint(p.lf_fft_n as u64)).with(
                "crossover_hz"@,
                finite_single_or_null(p.crossover_hz),
            )
        },
    }
}

/// Live-tune the interval and the FFT length of a running monitor. The LF
/// length and the crossover are echoed, not set.
pub fn set_monitor_params(s: &mut Settings, cmd: &Json) -> (r: Json)
    ensures
        params_set(*old(s), cmd@, *final(s), r@),
{
    let interval: Option<Double> = get_double(cmd, "interval");
    let fft_n: Option<u32> = match opt_u32(cmd, "fft_n") {
        Ok(n) => n,
        Err(_) => return refuse("fft_n must be power of 2 in [256, 131072]"),
    };
    match interval {
        Some(x) => {
            if !valid_interval(x) {
                return refuse("interval must be > 0 and <= 60");
            }
        },
        None => {},
    }
    match fft_n {
        Some(n) => {
            if !valid_fft_n(n) {
                return refuse("fft_n must be power of 2 in [256, 131072]");
            }
        },
        None => {},
    }
    if !s.monitor.active {
        return refuse("no active monitor");
    }
    let mut p: MonitorParams = s.monitor;
    match interval {
        Some(x) => {
            p.interval = x;
        },
        None => {},
    }
    match fft_n {
        Some(n) => {
            p.fft_n = n;
        },
        None => {},
    }
    s.monitor = p;
    ok().with("interval", Json::float(p.interval)).with("fft_n", Json::Uint(p.fft_n as u64)).with(
        "lf_fft_n",
        Json::Uint(p.lf_fft_n as u64),
    ).with("crossover_hz", Json::single(p.crossover_hz))
}

/// Every weighting and every integration reads back from its own name, and no
/// other name means it.
pub proof fn names_read_back(w: Weighting, m: Integration, name: Seq<char>)
    ensures
        Weighting::of_tag(w.tag_text()) == Some(w),
        Weighting::of_tag(name) == Some(w) ==> name == w.tag_text(),
        Integration::of_tag(m.tag_text()) == Some(m),
        Integration::of_tag(name) == Some(m) ==> name == m.tag_text(),
        Weighting::A.tag_text() == "a"@,
        Weighting::C.tag_text() == "c"@,
        Weighting::Z.tag_text() == "z"@,
        Integration::Fast.tag_text() == "fast"@,
        Integration::Slow.tag_text() == "slow"@,
        Integration::Leq.tag_text() == "leq"@,
{
    reveal_strlit("off");
    reveal_strlit("a");
    reveal_strlit("c");
    reveal_strlit("z");
    reveal_strlit("fast");
    reveal_strlit("slow");
    reveal_strlit("leq");
    assert("off"@.len() == 3);
    assert("a"@.len() == 1);
    assert("c"@.len() == 1);
    assert("z"@.len() == 1);
    assert("fast"@.len() == 4);
    assert("slow"@.len() == 4);
    assert("leq"@.len() == 3);
    assert("off"@[0] != "leq"@[0]);
    assert("a"@[0] != "c"@[0]);
    assert("a"@[0] != "z"@[0]);
    assert("c"@[0] != "z"@[0]);
    assert("fast"@[0] != "slow"@[0]);
}

/// Every analysis mode is known by its own name and by no other.
pub proof fn modes_are_known_by_name(m: Mode, name: Seq<char>)
    ensures
        known_mode(m.tag_text()) == Some(m),
        known_mode(name) == Some(m) ==> name == m.tag_text(),
{
    reveal_strlit("fft");
    reveal_strlit("cwt");
    reveal_strlit("cqt");
    reveal_strlit("reassigned");
    assert("fft"@.len() == 3);
    assert("cwt"@.len() == 3);
    assert("cqt"@.len() == 3);
    assert("reassigned"@.len() == 10);
    assert("fft"@[0] != "cwt"@[0]);
    assert("fft"@[0] != "cqt"@[0]);
    assert("cwt"@[1] != "cqt"@[1]);
}

/// Selecting a mode selects the one that was named. The parameters take the
/// given values within their bounds, 5 to 24 and 64 to 8192, and keep their
/// own where none is given; nothing else changes, and a refusal changes
/// nothing. The reply tells what is set now.
pub proof fn a_mode_is_selected_by_name(
    before: Settings,
    cmd: JsonV,
    after: Settings,
    reply: JsonV,
)
    requires
        analysis_mode_set(before, cmd, after, reply),
    ensures
        ({
            let accepted = str_field(cmd, "mode"@) is Some && known_mode(
                str_field(cmd, "mode"@)->0,
            ) is Some;
            &&& !accepted ==> after == before && reply.field("ok"@) == Some(JsonV::Bool(false))
            &&& accepted ==> {
                &&& after.mode.tag_text() == str_field(cmd, "mode"@)->0
                &&& double_field(cmd, "sigma"@) is None ==> after.cwt_sigma == before.cwt_sigma
                &&& double_field(cmd, "sigma"@) matches Some(x) ==> (!x.narrowed().nan() ==> (Single {
                    bits: 0x40A0_0000,
                }).at_most(after.cwt_sigma) && after.cwt_sigma.at_most(
                    Single { bits: 0x41C0_0000 },
                )) && ((Single { bits: 0x40A0_0000 }).at_most(x.narrowed())
                    && x.narrowed().at_most(Single { bits: 0x41C0_0000 }) ==> after.cwt_sigma
                    == x.narrowed())
                &&& uint_field(cmd, "n_scales"@) is None ==> after.cwt_n_scales
                    == before.cwt_n_scales
                &&& uint_field(cmd, "n_scales"@) matches Some(n) ==> 64 <= after.cwt_n_scales
                    <= 8192 && (64 <= n <= 8192 ==> after.cwt_n_scales == n)
                &&& after.ioct_bpo == before.ioct_bpo && after.weighting == before.weighting
                &&& after.integration == before.integration && after.monitor == before.monitor
                &&& after.leq_reset_request == before.leq_reset_request
                &&& after.loudness_reset_request == before.loudness_reset_request
                &&& after.mic_correction_enabled == before.mic_correction_enabled
                &&& reply == mode_reply(after)
            }
        }),
{
    fields_read_back();
    reveal_strlit("ok");
    reveal_strlit("error");
    assert("ok"@.len() == 2);
    assert("error"@.len() == 5);
    if str_field(cmd, "mode"@) is Some {
        let tag = str_field(cmd, "mode"@)->0;
        if known_mode(tag) is Some {
            modes_are_known_by_name(known_mode(tag)->0, tag);
        }
    }
}

/// The reply that describes the mode tells each parameter under its own name.
pub proof fn a_mode_is_told_by_name(s: Settings)
    ensures
        mode_reply(s).field("ok"@) == Some(JsonV::Bool(true)),
        mode_reply(s).field("mode"@) == Some(JsonV::Str(s.mode.tag_text())),
        mode_reply(s).field("sigma"@) == Some(finite_single_or_null(s.cwt_sigma)),
        mode_reply(s).field("n_scales"@) == Some(JsonV::Uint(s.cwt_n_scales)),
        weighting_reply(s.weighting).field("mode"@) == Some(JsonV::Str(s.weighting.tag_text())),
        integration_reply(s.integration).field("mode"@) == Some(
            JsonV::Str(s.integration.tag_text()),
        ),
{
    fields_read_back();
    reveal_strlit("ok");
    reveal_strlit("mode");
    reveal_strlit("sigma");
    reveal_strlit("n_scales");
    assert("ok"@.len() == 2);
    assert("mode"@.len() == 4);
    assert("sigma"@.len() == 5);
    assert("n_scales"@.len() == 8);
}

/// Selecting bands takes the count that was asked for where it is offered (1,
/// 3, 6, 12 or 24) and none for zero; nothing else changes, and a count that is
/// not offered changes nothing.
pub proof fn bands_are_as_asked_for(
    before: Settings,
    cmd: JsonV,
    after: Settings,
    reply: JsonV,
)
    requires
        bpo_set(before, cmd, after, reply),
    ensures
        ({
            let asked = if cmd.field("bpo"@) is Some {
                u32_of(cmd.field("bpo"@)->0)
            } else {
                None
            };
            &&& asked == Some(0u32) ==> after.ioct_bpo is None && reply.field("ok"@) == Some(
                JsonV::Bool(true),
            )
            &&& asked matches Some(n) ==> (n == 1 || n == 3 || n == 6 || n == 12 || n == 24
                ==> after.ioct_bpo == Some(n) && reply.field("bpo"@) == Some(
                JsonV::Uint(n as u64),
            )) && (n != 0 && n != 1 && n != 3 && n != 6 && n != 12 && n != 24 ==> after == before
                && reply.field("ok"@) == Some(JsonV::Bool(false)))
            &&& asked is None ==> after == before && reply.field("ok"@) == Some(JsonV::Bool(false))
            &&& after == (Settings { ioct_bpo: after.ioct_bpo, ..before })
        }),
{
    fields_read_back();
    reveal_strlit("ok");
    reveal_strlit("error");
    reveal_strlit("bpo");
    assert("ok"@.len() == 2);
    assert("error"@.len() == 5);
    assert("bpo"@.len() == 3);
}

/// Selecting a weighting, or an integration, moves that alone and to the one
/// that was named; asking for Leq also starts it over, and nothing else does.
pub proof fn weighting_and_integration_move_alone(
    before: Settings,
    cmd: JsonV,
    weighted: Settings,
    weighted_reply: JsonV,
    integrated: Settings,
    integrated_reply: JsonV,
)
    requires
        weighting_set(before, cmd, weighted, weighted_reply),
        integration_set(before, cmd, integrated, integrated_reply),
    ensures
        weighted == (Settings { weighting: weighted.weighting, ..before }),
        integrated == (Settings {
            integration: integrated.integration,
            leq_reset_request: integrated.leq_reset_request,
            ..before
        }),
        str_field(cmd, "mode"@) is None ==> weighted == before && integrated == before,
        str_field(cmd, "mode"@) matches Some(raw) ==> ({
            let name = lowered(raw);
            &&& Weighting::of_tag(name) is Some ==> weighted.weighting.tag_text() == name
                && weighted_reply == weighting_reply(weighted.weighting)
            &&& Weighting::of_tag(name) is None ==> weighted == before
            &&& Integration::of_tag(name) is Some ==> integrated.integration.tag_text() == name
                && integrated_reply == integration_reply(integrated.integration)
            &&& Integration::of_tag(name) is None ==> integrated == before
            &&& integrated.leq_reset_request <==> before.leq_reset_request || name == "leq"@
        }),
{
    if let Some(raw) = str_field(cmd, "mode"@) {
        let name = lowered(raw);
        if Weighting::of_tag(name) is Some {
            names_read_back(Weighting::of_tag(name)->0, Integration::Leq, name);
        }
        if Integration::of_tag(name) is Some {
            names_read_back(Weighting::Off, Integration::of_tag(name)->0, name);
        }
        names_read_back(Weighting::Off, Integration::Leq, name);
    }
}

/// The correction is on unless the request says that it is off, and the reply
/// tells which; nothing else changes.
pub proof fn correction_is_on_unless_off(
    before: Settings,
    cmd: JsonV,
    after: Settings,
    reply: JsonV,
)
    requires
        mic_correction_set(before, cmd, after, reply),
    ensures
        after.mic_correction_enabled <==> bool_field(cmd, "enabled"@) != Some(false),
        after == (Settings { mic_correction_enabled: after.mic_correction_enabled, ..before }),
        reply.field("ok"@) == Some(JsonV::Bool(true)),
        reply.field("enabled"@) == Some(JsonV::Bool(after.mic_correction_enabled)),
{
    fields_read_back();
    reveal_strlit("ok");
    reveal_strlit("enabled");
    assert("ok"@.len() == 2);
    assert("enabled"@.len() == 7);
}

/// A running monitor takes the interval and the FFT length that are asked for,
/// each by its own name and within its bounds; it keeps what is not asked for,
/// and the LF length and the crossover always. A refusal changes nothing, and
/// there is always one where no monitor runs.
pub proof fn parameters_are_tuned_by_name(
    before: Settings,
    cmd: JsonV,
    after: Settings,
    reply: JsonV,
)
    requires
        params_set(before, cmd, after, reply),
    ensures
        ({
            let p = before.monitor;
            let q = after.monitor;
            &&& after == (Settings { monitor: q, ..before })
            &&& q.lf_fft_n == p.lf_fft_n && q.crossover_hz == p.crossover_hz && q.active == p.active
            &&& !p.active ==> after == before
            &&& params_refusal(p, cmd) is Some ==> after == before && Some(reply) == params_refusal(
                p,
                cmd,
            )
            &&& params_refusal(p, cmd) is None ==> {
                &&& double_field(cmd, "interval"@) is None ==> q.interval == p.interval
                &&& double_field(cmd, "interval"@) matches Some(x) ==> q.interval == x && (Double {
                    bits: 0,
                }).below(x) && x.at_most(Double { bits: 0x404E_0000_0000_0000 })
                &&& opt_u32_of(cmd, "fft_n"@) matches Ok(None) ==> q.fft_n == p.fft_n
                &&& opt_u32_of(cmd, "fft_n"@) matches Ok(Some(n)) ==> q.fft_n == n && fft_n_ok(n)
                &&& reply.field("ok"@) == Some(JsonV::Bool(true))
                &&& reply.field("interval"@) == Some(finite_or_null(q.interval))
                &&& reply.field("fft_n"@) == Some(JsonV::Uint(q.fft_n as u64))
                &&& reply.field("lf_fft_n"@) == Some(JsonV::Uint(q.lf_fft_n as u64))
                &&& reply.field("crossover_hz"@) == Some(finite_single_or_null(q.crossover_hz))
            }
        }),
{
    fields_read_back();
    reveal_strlit("ok");
    reveal_strlit("interval");
    reveal_strlit("fft_n");
    reveal_strlit("lf_fft_n");
    reveal_strlit("crossover_hz");
    assert("ok"@.len() == 2);
    assert("interval"@.len() == 8);
    assert("fft_n"@.len() == 5);
    assert("lf_fft_n"@.len() == 8);
    assert("crossover_hz"@.len() == 12);
    assert("interval"@[0] != "lf_fft_n"@[0]);
}

/// Parameters are refused exactly where the FFT length is malformed or not
/// offered, the interval is out of bounds, or no monitor runs; the first of
/// these is the one that is told.
pub proof fn parameters_are_refused_for_their_first_fault(p: MonitorParams, cmd: JsonV)
    ensures
        ({
            let refusal = params_refusal(p, cmd);
            let length = opt_u32_of(cmd, "fft_n"@);
            let interval = double_field(cmd, "interval"@);
            let bad_interval = interval is Some && !((Double { bits: 0 }).below(interval->0)
                && interval->0.at_most(Double { bits: 0x404E_0000_0000_0000 }));
            let bad_length = length is Ok && length->Ok_0 is Some && !fft_n_ok(
                (length->Ok_0)->0,
            );
            &&& refusal is None <==> length is Ok && !bad_interval && !bad_length && p.active
            &&& length is Err ==> refusal == Some(fft_n_refusal())
            &&& length is Ok && bad_interval ==> refusal == Some(
                refusal_reply("interval must be > 0 and <= 60"@),
            )
            &&& length is Ok && !bad_interval && bad_length ==> refusal == Some(fft_n_refusal())
            &&& length is Ok && !bad_interval && !bad_length && !p.active ==> refusal == Some(
                refusal_reply("no active monitor"@),
            )
        }),
{
}

} // verus!
