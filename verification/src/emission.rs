//! The generator commands: `generate`, `generate_pink`, `sweep_level` and
//! `sweep_frequency`.
//!
//! A level above the fixed maximum is refused before it reaches the engine;
//! it is never lowered to the maximum.
use vstd::prelude::*;

use crate::config::ConfigV;
use crate::double::{Double, ONE};
use crate::gate::{
    check_fields, gate_pair_cal, loopback_of, probe_of, stores_voltage, unit_of, unit_refusal,
    Gate, LevelUnit, PairCal,
};
use crate::json::{fields_read_back, finite_or_null, Json, JsonV, str_views};
use crate::launch::{get_number, number_or, Launch};
use crate::ports::{channels_of, output_of, resolve_channels, resolve_output};
use crate::settings::{ok, ok_reply};
use crate::text::texts;
use crate::wire::{double_field, get_double, refusal_reply, refuse};

verus! {

/// The levels that bound what is emitted, and the refusal of one above them.
pub struct EmissionLimits {
    pub default_dbfs: Double,
    pub ramp_start_dbfs: Double,
    pub ramp_stop_dbfs: Double,
    pub max_dbfs: Double,
    /// The refusal of the requested level, as printed by the caller.
    pub refusal: String,
}

/// How the unit and the pair's calibration refuse a command.
pub open spec fn gate_refusal(cmd: JsonV, loaded: Result<Option<PairCal>, String>) -> Option<
    JsonV,
> {
    match unit_of(cmd) {
        None => Some(unit_refusal(cmd)),
        Some(u) => match loaded {
            Err(msg) => if u.is_physical() {
                Some(refusal_reply(msg@))
            } else {
                None
            },
            Ok(_) => None,
        },
    }
}

/// The pair's calibration that a session check is planned with.
pub open spec fn planned_pair(loaded: Result<Option<PairCal>, String>) -> Option<PairCal> {
    match loaded {
        Ok(p) => p,
        Err(_) => None,
    }
}

/// The planned session check is the one that the request calls for.
pub open spec fn gate_planned(
    gate: &Gate,
    name: Seq<char>,
    cmd: JsonV,
    loaded: Result<Option<PairCal>, String>,
    cfg: ConfigV,
    playback: Seq<Seq<char>>,
    capture: Seq<Seq<char>>,
) -> bool {
    &&& unit_of(cmd) == Some(gate.level_unit)
    &&& gate.cmd@ == name
    &&& gate.pair == planned_pair(loaded)
    &&& gate.probe_view() == probe_of(
        loopback_of(cfg, playback, capture),
        stores_voltage(gate.pair) || gate.level_unit.is_physical(),
        false,
    )
    &&& gate.tau_loopback is None
}

fn plan_gate(
    l: &Launch,
    name: &str,
    cmd: &Json,
    loaded: Result<Option<PairCal>, String>,
) -> (r: Result<Gate, Json>)
    ensures
        match r {
            Err(e) => gate_refusal(cmd@, loaded) == Some(e@),
            Ok(g) => {
                &&& gate_refusal(cmd@, loaded) is None
                &&& gate_planned(
                    &g,
                    name@,
                    cmd@,
                    loaded,
                    l.cfg@,
                    texts(l.playback@),
                    texts(l.capture@),
                )
            },
        },
{
    let unit: LevelUnit = match LevelUnit::from_request(cmd) {
        Ok(u) => u,
        Err(e) => return Err(e),
    };
    let pair = match gate_pair_cal(loaded, unit) {
        Ok(p) => p,
        Err(e) => return Err(e),
    };
    Ok(Gate::plan(l.cfg, l.playback, l.capture, name, pair, unit, false))
}

/// An accepted tone or noise.
pub struct GeneratePlan {
    /// The frequency of a tone; noise has none.
    pub freq_hz: Option<Double>,
    pub level_dbfs: Double,
    pub gate: Gate,
    pub out_ports: Vec<String>,
}

/// The first reason to refuse a generator: what blocks it, the level, the
/// unit, the pair's calibration, the ports.
pub open spec fn generate_refusal(
    l: &Launch,
    name: Seq<char>,
    cmd: JsonV,
    loaded: Result<Option<PairCal>, String>,
    limits: &EmissionLimits,
) -> Option<JsonV> {
    match l.blocked(name) {
        Some(e) => Some(refusal_reply(e)),
        None => if limits.max_dbfs.below(number_or(cmd, "level_dbfs"@, limits.default_dbfs)) {
            Some(refusal_reply(limits.refusal@))
        } else {
            match gate_refusal(cmd, loaded) {
                Some(e) => Some(e),
                None => match channels_of(name, cmd, l.cfg@, texts(l.playback@)) {
                    Err(e) => Some(refusal_reply(e)),
                    Ok(_) => None,
                },
            }
        },
    }
}

impl GeneratePlan {
    /// The plan is what the request asks for.
    pub open spec fn answers(
        &self,
        l: &Launch,
        name: Seq<char>,
        cmd: JsonV,
        loaded: Result<Option<PairCal>, String>,
        limits: &EmissionLimits,
    ) -> bool {
        &&& self.level_dbfs == number_or(cmd, "level_dbfs"@, limits.default_dbfs)
        &&& gate_planned(
            &self.gate,
            name,
            cmd,
            loaded,
            l.cfg@,
            texts(l.playback@),
            texts(l.capture@),
        )
        &&& channels_of(name, cmd, l.cfg@, texts(l.playback@)) == Ok::<
            Seq<Seq<char>>,
            Seq<char>,
        >(texts(self.out_ports@))
    }
}

fn plan_generate(
    l: &Launch,
    name: &str,
    cmd: &Json,
    loaded: Result<Option<PairCal>, String>,
    limits: &EmissionLimits,
    freq_hz: Option<Double>,
) -> (r: Result<GeneratePlan, Json>)
    ensures
        match r {
            Err(e) => generate_refusal(l, name@, cmd@, loaded, limits) == Some(e@),
            Ok(p) => {
                &&& generate_refusal(l, name@, cmd@, loaded, limits) is None
                &&& p.freq_hz == freq_hz
                &&& p.answers(l, name@, cmd@, loaded, limits)
            },
        },
{
    match l.check(name) {
        Some(e) => return Err(refuse(e.as_str())),
        None => {},
    }
    let level_dbfs: Double = get_number(cmd, "level_dbfs", limits.default_dbfs);
    if limits.max_dbfs.lt(level_dbfs) {
        return Err(refuse(limits.refusal.as_str()));
    }
    let gate = match plan_gate(l, name, cmd, loaded) {
        Ok(g) => g,
        Err(e) => return Err(e),
    };
    let out_ports = match resolve_channels(name, cmd, l.cfg, l.playback) {
        Ok(p) => p,
        Err(e) => return Err(refuse(e.as_str())),
    };
    Ok(GeneratePlan { freq_hz, level_dbfs, gate, out_ports })
}

/// The default tone, 1 kHz.
pub const DEFAULT_TONE: u64 = 0x408F_4000_0000_0000;

/// `generate`, up to the start of its worker.
pub fn generate(
    l: &Launch,
    cmd: &Json,
    loaded: Result<Option<PairCal>, String>,
    limits: &EmissionLimits,
) -> (r: Result<GeneratePlan, Json>)
    ensures
        match r {
            Err(e) => generate_refusal(l, "generate"@, cmd@, loaded, limits) == Some(e@),
            Ok(p) => {
                &&& generate_refusal(l, "generate"@, cmd@, loaded, limits) is None
                &&& p.freq_hz == Some(
                    number_or(cmd@, "freq_hz"@, Double { bits: DEFAULT_TONE }),
                )
                &&& p.answers(l, "generate"@, cmd@, loaded, limits)
            },
        },
{
    let freq_hz: Double = get_number(cmd, "freq_hz", Double::new(DEFAULT_TONE));
    plan_generate(l, "generate", cmd, loaded, limits, Some(freq_hz))
}

/// `generate_pink`, up to the start of its worker.
pub fn generate_pink(
    l: &Launch,
    cmd: &Json,
    loaded: Result<Option<PairCal>, String>,
    limits: &EmissionLimits,
) -> (r: Result<GeneratePlan, Json>)
    ensures
        match r {
            Err(e) => generate_refusal(l, "generate_pink"@, cmd@, loaded, limits) == Some(e@),
            Ok(p) => {
                &&& generate_refusal(l, "generate_pink"@, cmd@, loaded, limits) is None
                &&& p.freq_hz is None
                &&& p.answers(l, "generate_pink"@, cmd@, loaded, limits)
            },
        },
{
    plan_generate(l, "generate_pink", cmd, loaded, limits, None)
}

/// The reply to an accepted generator.
pub open spec fn generate_reply(
    plan: &GeneratePlan,
    max_dbfs: Double,
    engine: Result<String, String>,
) -> JsonV {
    match engine {
        Ok(backend) => check_fields(
            ok_reply().with("out_ports"@, JsonV::Arr(str_views(texts(plan.out_ports@)))).with(
                "level_dbfs"@,
                finite_or_null(plan.level_dbfs),
            ).with("max_dbfs"@, finite_or_null(max_dbfs)).with("backend"@, JsonV::Str(backend@)),
            plan.gate.probe_view(),
            plan.gate.tau_loopback is Some,
        ),
        Err(e) => refusal_reply(e@),
    }
}

/// The reply to an accepted generator. `engine` is the backend of the audio
/// engine that was made for it, or why none could be, which refuses it.
pub fn generate_started(
    plan: &GeneratePlan,
    max_dbfs: Double,
    engine: &Result<String, String>,
) -> (r: Json)
    ensures
        r@ == generate_reply(plan, max_dbfs, *engine),
{
    let backend = match engine {
        Ok(backend) => backend,
        Err(e) => return refuse(e.as_str()),
    };
    let reply = ok().with("out_ports", Json::strings(&plan.out_ports)).with(
        "level_dbfs",
        Json::float(plan.level_dbfs),
    ).with("max_dbfs", Json::float(max_dbfs)).with("backend", Json::string(backend.as_str()));
    plan.gate.write_reply(reply)
}

/// An accepted sweep of level or frequency: the two ends, what is held fixed,
/// and how long it takes.
pub struct SweepPlan {
    pub start: Double,
    pub stop: Double,
    /// The frequency of a level sweep, the level of a frequency sweep.
    pub fixed: Double,
    pub duration: Double,
    pub gate: Gate,
    pub out_port: String,
}

impl SweepPlan {
    /// The plan is the level sweep that the request asks for.
    pub open spec fn sweeps_level(
        &self,
        l: &Launch,
        cmd: JsonV,
        loaded: Result<Option<PairCal>, String>,
        limits: &EmissionLimits,
    ) -> bool {
        &&& self.start == number_or(cmd, "start_dbfs"@, limits.ramp_start_dbfs)
        &&& self.stop == number_or(cmd, "stop_dbfs"@, limits.ramp_stop_dbfs)
        &&& double_field(cmd, "freq_hz"@) == Some(self.fixed)
        &&& self.duration == number_or(cmd, "duration"@, Double { bits: ONE })
        &&& gate_planned(
            &self.gate,
            "sweep_level"@,
            cmd,
            loaded,
            l.cfg@,
            texts(l.playback@),
            texts(l.capture@),
        )
        &&& output_of(l.cfg@, texts(l.playback@)) == Ok::<Seq<char>, Seq<char>>(self.out_port@)
    }

    /// The plan is the frequency sweep that the request asks for.
    pub open spec fn sweeps_frequency(
        &self,
        l: &Launch,
        cmd: JsonV,
        loaded: Result<Option<PairCal>, String>,
        limits: &EmissionLimits,
    ) -> bool {
        &&& self.start == number_or(cmd, "start_hz"@, Double { bits: AUDIO_LOW })
        &&& self.stop == number_or(cmd, "stop_hz"@, Double { bits: AUDIO_HIGH })
        &&& self.fixed == number_or(cmd, "level_dbfs"@, limits.default_dbfs)
        &&& self.duration == number_or(cmd, "duration"@, Double { bits: ONE })
        &&& gate_planned(
            &self.gate,
            "sweep_frequency"@,
            cmd,
            loaded,
            l.cfg@,
            texts(l.playback@),
            texts(l.capture@),
        )
        &&& output_of(l.cfg@, texts(l.playback@)) == Ok::<Seq<char>, Seq<char>>(self.out_port@)
    }
}

/// The first reason to refuse a level sweep: what blocks it, a missing
/// frequency, an end above the maximum, the unit, the pair's calibration, the
/// port.
pub open spec fn sweep_level_refusal(
    l: &Launch,
    cmd: JsonV,
    loaded: Result<Option<PairCal>, String>,
    limits: &EmissionLimits,
) -> Option<JsonV> {
    match l.blocked("sweep_level"@) {
        Some(e) => Some(refusal_reply(e)),
        None => if double_field(cmd, "freq_hz"@) is None {
            Some(refusal_reply("missing freq_hz"@))
        } else if limits.max_dbfs.below(number_or(cmd, "start_dbfs"@, limits.ramp_start_dbfs))
            || limits.max_dbfs.below(number_or(cmd, "stop_dbfs"@, limits.ramp_stop_dbfs)) {
            Some(refusal_reply(limits.refusal@))
        } else {
            match gate_refusal(cmd, loaded) {
                Some(e) => Some(e),
                None => match output_of(l.cfg@, texts(l.playback@)) {
                    Err(e) => Some(refusal_reply(e)),
                    Ok(_) => None,
                },
            }
        },
    }
}

/// `sweep_level`, up to the start of its worker. Both ends are checked, so
/// that every level between them is in range.
pub fn sweep_level(
    l: &Launch,
    cmd: &Json,
    loaded: Result<Option<PairCal>, String>,
    limits: &EmissionLimits,
) -> (r: Result<SweepPlan, Json>)
    ensures
        match r {
            Err(e) => sweep_level_refusal(l, cmd@, loaded, limits) == Some(e@),
            Ok(p) => {
                &&& sweep_level_refusal(l, cmd@, loaded, limits) is None
                &&& p.sweeps_level(l, cmd@, loaded, limits)
            },
        },
{
    match l.check("sweep_level") {
        Some(e) => return Err(refuse(e.as_str())),
        None => {},
    }
    let fixed: Double = match get_double(cmd, "freq_hz") {
        Some(x) => x,
        None => return Err(refuse("missing freq_hz")),
    };
    let start: Double = get_number(cmd, "start_dbfs", limits.ramp_start_dbfs);
    let stop: Double = get_number(cmd, "stop_dbfs", limits.ramp_stop_dbfs);
    let duration: Double = get_number(cmd, "duration", Double::new(ONE));
    if limits.max_dbfs.lt(start) || limits.max_dbfs.lt(stop) {
        return Err(refuse(limits.refusal.as_str()));
    }
    let gate = match plan_gate(l, "sweep_level", cmd, loaded) {
        Ok(g) => g,
        Err(e) => return Err(e),
    };
    let out_port = match resolve_output(l.cfg, l.playback) {
        Ok(p) => p,
        Err(e) => return Err(refuse(e.as_str())),
    };
    Ok(SweepPlan { start, stop, fixed, duration, gate, out_port })
}

/// The reply to an accepted level sweep.
pub open spec fn sweep_level_reply(
    plan: &SweepPlan,
    max_dbfs: Double,
    engine: Result<String, String>,
) -> JsonV {
    match engine {
        Ok(backend) => check_fields(
            ok_reply().with("out_port"@, JsonV::Str(plan.out_port@)).with(
                "start_dbfs"@,
                finite_or_null(plan.start),
            ).with("stop_dbfs"@, finite_or_null(plan.stop)).with(
                "max_dbfs"@,
                finite_or_null(max_dbfs),
            ).with("backend"@, JsonV::Str(backend@)),
            plan.gate.probe_view(),
            plan.gate.tau_loopback is Some,
        ),
        Err(e) => refusal_reply(e@),
    }
}

/// The reply to an accepted level sweep. `engine` is the backend of the audio
/// engine that was made for it, or why none could be, which refuses it.
pub fn sweep_level_started(
    plan: &SweepPlan,
    max_dbfs: Double,
    engine: &Result<String, String>,
) -> (r: Json)
    ensures
        r@ == sweep_level_reply(plan, max_dbfs, *engine),
{
    let backend = match engine {
        Ok(backend) => backend,
        Err(e) => return refuse(e.as_str()),
    };
    let reply = ok().with("out_port", Json::string(plan.out_port.as_str())).with(
        "start_dbfs",
        Json::float(plan.start),
    ).with("stop_dbfs", Json::float(plan.stop)).with("max_dbfs", Json::float(max_dbfs)).with(
        "backend",
        Json::string(backend.as_str()),
    );
    plan.gate.write_reply(reply)
}

/// 20 Hz and 20 kHz.
pub const AUDIO_LOW: u64 = 0x4034_0000_0000_0000;

pub const AUDIO_HIGH: u64 = 0x40D3_8800_0000_0000;

/// The first reason to refuse a frequency sweep: what blocks it, the level,
/// the unit, the pair's calibration, the port.
pub open spec fn sweep_frequency_refusal(
    l: &Launch,
    cmd: JsonV,
    loaded: Result<Option<PairCal>, String>,
    limits: &EmissionLimits,
) -> Option<JsonV> {
    match l.blocked("sweep_frequency"@) {
        Some(e) => Some(refusal_reply(e)),
        None => if limits.max_dbfs.below(number_or(cmd, "level_dbfs"@, limits.default_dbfs)) {
            Some(refusal_reply(limits.refusal@))
        } else {
            match gate_refusal(cmd, loaded) {
                Some(e) => Some(e),
                None => match output_of(l.cfg@, texts(l.playback@)) {
                    Err(e) => Some(refusal_reply(e)),
                    Ok(_) => None,
                },
            }
        },
    }
}

/// `sweep_frequency`, up to the start of its worker.
pub fn sweep_frequency(
    l: &Launch,
    cmd: &Json,
    loaded: Result<Option<PairCal>, String>,
    limits: &EmissionLimits,
) -> (r: Result<SweepPlan, Json>)
    ensures
        match r {
            Err(e) => sweep_frequency_refusal(l, cmd@, loaded, limits) == Some(e@),
            Ok(p) => {
                &&& sweep_frequency_refusal(l, cmd@, loaded, limits) is None
                &&& p.sweeps_frequency(l, cmd@, loaded, limits)
            },
        },
{
    match l.check("sweep_frequency") {
        Some(e) => return Err(refuse(e.as_str())),
        None => {},
    }
    let start: Double = get_number(cmd, "start_hz", Double::new(AUDIO_LOW));
    let stop: Double = get_number(cmd, "stop_hz", Double::new(AUDIO_HIGH));
    let fixed: Double = get_number(cmd, "level_dbfs", limits.default_dbfs);
    let duration: Double = get_number(cmd, "duration", Double::new(ONE));
    if limits.max_dbfs.lt(fixed) {
        return Err(refuse(limits.refusal.as_str()));
    }
    let gate = match plan_gate(l, "sweep_frequency", cmd, loaded) {
        Ok(g) => g,
        Err(e) => return Err(e),
    };
    let out_port = match resolve_output(l.cfg, l.playback) {
        Ok(p) => p,
        Err(e) => return Err(refuse(e.as_str())),
    };
    Ok(SweepPlan { start, stop, fixed, duration, gate, out_port })
}

/// The reply to an accepted frequency sweep.
pub open spec fn sweep_frequency_reply(
    plan: &SweepPlan,
    max_dbfs: Double,
    engine: Result<String, String>,
) -> JsonV {
    match engine {
        Ok(backend) => check_fields(
            ok_reply().with("out_port"@, JsonV::Str(plan.out_port@)).with(
                "level_dbfs"@,
                finite_or_null(plan.fixed),
            ).with("max_dbfs"@, finite_or_null(max_dbfs)).with("backend"@, JsonV::Str(backend@)),
            plan.gate.probe_view(),
            plan.gate.tau_loopback is Some,
        ),
        Err(e) => refusal_reply(e@),
    }
}

/// The reply to an accepted frequency sweep. `engine` is the backend of the audio
/// engine that was made for it, or why none could be, which refuses it.
pub fn sweep_frequency_started(
    plan: &SweepPlan,
    max_dbfs: Double,
    engine: &Result<String, String>,
) -> (r: Json)
    ensures
        r@ == sweep_frequency_reply(plan, max_dbfs, *engine),
{
    let backend = match engine {
        Ok(backend) => backend,
        Err(e) => return refuse(e.as_str()),
    };
    let reply = ok().with("out_port", Json::string(plan.out_port.as_str())).with(
        "level_dbfs",
        Json::float(plan.fixed),
    ).with("max_dbfs", Json::float(max_dbfs)).with("backend", Json::string(backend.as_str()));
    plan.gate.write_reply(reply)
}

/// Whether a sweep goes on: not stopped, and not yet as long as asked for.
pub fn sweep_continues(stopped: bool, elapsed: Double, duration: Double) -> (r: bool)
    ensures
        r == (!stopped && !duration.at_most(elapsed)),
{
    !stopped && !duration.le(elapsed)
}

/// No accepted plan emits above the maximum: not a tone, not noise, and no
/// point of a sweep from one end to the other.
pub proof fn nothing_is_emitted_above_the_maximum(
    l: &Launch,
    name: Seq<char>,
    cmd: JsonV,
    loaded: Result<Option<PairCal>, String>,
    limits: &EmissionLimits,
    point: Double,
)
    ensures
        generate_refusal(l, name, cmd, loaded, limits) is None ==> !limits.max_dbfs.below(
            number_or(cmd, "level_dbfs"@, limits.default_dbfs),
        ),
        sweep_level_refusal(l, cmd, loaded, limits) is None ==> !limits.max_dbfs.below(
            number_or(cmd, "start_dbfs"@, limits.ramp_start_dbfs),
        ) && !limits.max_dbfs.below(number_or(cmd, "stop_dbfs"@, limits.ramp_stop_dbfs)),
        sweep_level_refusal(l, cmd, loaded, limits) is None && (point.at_most(
            number_or(cmd, "start_dbfs"@, limits.ramp_start_dbfs),
        ) || point.at_most(number_or(cmd, "stop_dbfs"@, limits.ramp_stop_dbfs)))
            ==> !limits.max_dbfs.below(point),
        sweep_frequency_refusal(l, cmd, loaded, limits) is None ==> !limits.max_dbfs.below(
            number_or(cmd, "level_dbfs"@, limits.default_dbfs),
        ),
{
}

/// The replies to accepted emissions name what is emitted and where, the
/// maximum and the backend, each under its own name, and say whether a check
/// comes; without an engine they are refusals with the reason.
pub proof fn emissions_are_told_by_name(
    tone: GeneratePlan,
    sweep: SweepPlan,
    max: Double,
    engine: Result<String, String>,
)
    ensures
        engine matches Err(why) ==> ({
            let refusal = refusal_reply(why@);
            &&& generate_reply(&tone, max, engine) == refusal
            &&& sweep_level_reply(&sweep, max, engine) == refusal
            &&& sweep_frequency_reply(&sweep, max, engine) == refusal
        }),
        engine matches Ok(backend) ==> ({
            let a = generate_reply(&tone, max, engine);
            let b = sweep_level_reply(&sweep, max, engine);
            let c = sweep_frequency_reply(&sweep, max, engine);
            &&& a.field("ok"@) == Some(JsonV::Bool(true))
            &&& a.field("out_ports"@) == Some(JsonV::Arr(str_views(texts(tone.out_ports@))))
            &&& a.field("level_dbfs"@) == Some(finite_or_null(tone.level_dbfs))
            &&& a.field("max_dbfs"@) == Some(finite_or_null(max))
            &&& a.field("backend"@) == Some(JsonV::Str(backend@))
            &&& b.field("ok"@) == Some(JsonV::Bool(true))
            &&& b.field("out_port"@) == Some(JsonV::Str(sweep.out_port@))
            &&& b.field("start_dbfs"@) == Some(finite_or_null(sweep.start))
            &&& b.field("stop_dbfs"@) == Some(finite_or_null(sweep.stop))
            &&& b.field("max_dbfs"@) == Some(finite_or_null(max))
            &&& b.field("backend"@) == Some(JsonV::Str(backend@))
            &&& c.field("ok"@) == Some(JsonV::Bool(true))
            &&& c.field("out_port"@) == Some(JsonV::Str(sweep.out_port@))
            &&& c.field("level_dbfs"@) == Some(finite_or_null(sweep.fixed))
            &&& c.field("max_dbfs"@) == Some(finite_or_null(max))
            &&& c.field("backend"@) == Some(JsonV::Str(backend@))
            &&& tone.gate.probe is Ok || tone.gate.tau_loopback is Some ==> a.field(
                "session_check"@,
            ) == Some(JsonV::Str("pending"@))
            &&& sweep.gate.probe is Ok || sweep.gate.tau_loopback is Some ==> b.field(
                "session_check"@,
            ) == Some(JsonV::Str("pending"@)) && c.field("session_check"@) == Some(
                JsonV::Str("pending"@),
            )
        }),
{
    fields_read_back();
    reveal_strlit("ok");
    reveal_strlit("out_ports");
    reveal_strlit("out_port");
    reveal_strlit("level_dbfs");
    reveal_strlit("start_dbfs");
    reveal_strlit("stop_dbfs");
    reveal_strlit("max_dbfs");
    reveal_strlit("backend");
    reveal_strlit("session_check");
    reveal_strlit("session_check_reason");
    reveal_strlit("error");
    assert("ok"@.len() == 2);
    assert("out_ports"@.len() == 9);
    assert("out_port"@.len() == 8);
    assert("level_dbfs"@.len() == 10);
    assert("start_dbfs"@.len() == 10);
    assert("stop_dbfs"@.len() == 9);
    assert("max_dbfs"@.len() == 8);
    assert("backend"@.len() == 7);
    assert("session_check"@.len() == 13);
    assert("session_check_reason"@.len() == 20);
    assert("error"@.len() == 5);
    assert("out_ports"@[0] != "stop_dbfs"@[0]);
    assert("out_port"@[0] != "max_dbfs"@[0]);
    assert("level_dbfs"@[0] != "start_dbfs"@[0]);
}

/// A tone or noise is emitted at the level that is asked for, else at the
/// default one, and checked as its unit and its pair call for.
pub proof fn a_tone_is_as_requested(
    plan: GeneratePlan,
    l: &Launch,
    name: Seq<char>,
    cmd: JsonV,
    loaded: Result<Option<PairCal>, String>,
    limits: &EmissionLimits,
)
    requires
        plan.answers(l, name, cmd, loaded, limits),
    ensures
        double_field(cmd, "level_dbfs"@) matches Some(x) ==> plan.level_dbfs == x,
        double_field(cmd, "level_dbfs"@) is None ==> plan.level_dbfs == limits.default_dbfs,
        channels_of(name, cmd, l.cfg@, texts(l.playback@)) == Ok::<Seq<Seq<char>>, Seq<char>>(
            texts(plan.out_ports@),
        ),
        unit_of(cmd) == Some(plan.gate.level_unit),
        plan.gate.cmd@ == name,
        loaded matches Ok(pair) ==> plan.gate.pair == pair,
        loaded is Err ==> plan.gate.pair is None,
        plan.gate.tau_loopback is None,
        plan.gate.probe is Ok ==> plan.gate.level_unit != LevelUnit::Dbfs || (plan.gate.pair is Some
            && plan.gate.pair->0.has_voltage),
{
}

/// A level sweep goes from one end to the other at the frequency that is asked
/// for, a frequency sweep at the level that is asked for; what is not named is
/// the ramp of the limits, or 20 Hz to 20 kHz at the default level, for a
/// second.
pub proof fn a_sweep_is_as_requested(
    level: SweepPlan,
    frequency: SweepPlan,
    l: &Launch,
    cmd: JsonV,
    loaded: Result<Option<PairCal>, String>,
    limits: &EmissionLimits,
)
    requires
        level.sweeps_level(l, cmd, loaded, limits),
        frequency.sweeps_frequency(l, cmd, loaded, limits),
    ensures
        double_field(cmd, "start_dbfs"@) matches Some(x) ==> level.start == x,
        double_field(cmd, "start_dbfs"@) is None ==> level.start == limits.ramp_start_dbfs,
        double_field(cmd, "stop_dbfs"@) matches Some(x) ==> level.stop == x,
        double_field(cmd, "stop_dbfs"@) is None ==> level.stop == limits.ramp_stop_dbfs,
        double_field(cmd, "freq_hz"@) == Some(level.fixed),
        double_field(cmd, "start_hz"@) matches Some(x) ==> frequency.start == x,
        double_field(cmd, "start_hz"@) is None ==> frequency.start == (Double {
            bits: 0x4034_0000_0000_0000,
        }),
        double_field(cmd, "stop_hz"@) matches Some(x) ==> frequency.stop == x,
        double_field(cmd, "stop_hz"@) is None ==> frequency.stop == (Double {
            bits: 0x40D3_8800_0000_0000,
        }),
        double_field(cmd, "level_dbfs"@) matches Some(x) ==> frequency.fixed == x,
        double_field(cmd, "level_dbfs"@) is None ==> frequency.fixed == limits.default_dbfs,
        double_field(cmd, "duration"@) matches Some(x) ==> level.duration == x
            && frequency.duration == x,
        double_field(cmd, "duration"@) is None ==> level.duration == (Double {
            bits: 0x3FF0_0000_0000_0000,
        }) && frequency.duration == level.duration,
        output_of(l.cfg@, texts(l.playback@)) == Ok::<Seq<char>, Seq<char>>(level.out_port@),
        output_of(l.cfg@, texts(l.playback@)) == Ok::<Seq<char>, Seq<char>>(frequency.out_port@),
        level.gate.cmd@ == "sweep_level"@,
        frequency.gate.cmd@ == "sweep_frequency"@,
        unit_of(cmd) == Some(level.gate.level_unit),
        unit_of(cmd) == Some(frequency.gate.level_unit),
{
}

/// An emission is refused exactly where something keeps it from starting, a
/// level is above the maximum, the unit or the pair's calibration is in the
/// way, or there is no port; the first of these is the one that is told.
pub proof fn an_emission_is_refused_for_its_first_fault(
    l: &Launch,
    name: Seq<char>,
    cmd: JsonV,
    loaded: Result<Option<PairCal>, String>,
    limits: &EmissionLimits,
)
    ensures
        ({
            let refusal = generate_refusal(l, name, cmd, loaded, limits);
            let loud = limits.max_dbfs.below(number_or(cmd, "level_dbfs"@, limits.default_dbfs));
            let ports = channels_of(name, cmd, l.cfg@, texts(l.playback@));
            &&& refusal is None <==> l.blocked(name) is None && !loud && gate_refusal(
                cmd,
                loaded,
            ) is None && ports is Ok
            &&& l.blocked(name) matches Some(e) ==> refusal == Some(refusal_reply(e))
            &&& l.blocked(name) is None && loud ==> refusal == Some(
                refusal_reply(limits.refusal@),
            )
            &&& l.blocked(name) is None && !loud && gate_refusal(cmd, loaded) is Some ==> refusal
                == gate_refusal(cmd, loaded)
            &&& l.blocked(name) is None && !loud && gate_refusal(cmd, loaded) is None ==> (
            ports matches Err(e) ==> refusal == Some(refusal_reply(e)))
        }),
        ({
            let refusal = sweep_level_refusal(l, cmd, loaded, limits);
            let blocked = l.blocked("sweep_level"@);
            let loud = limits.max_dbfs.below(
                number_or(cmd, "start_dbfs"@, limits.ramp_start_dbfs),
            ) || limits.max_dbfs.below(number_or(cmd, "stop_dbfs"@, limits.ramp_stop_dbfs));
            let tone = double_field(cmd, "freq_hz"@) is Some;
            let port = output_of(l.cfg@, texts(l.playback@));
            &&& refusal is None <==> blocked is None && tone && !loud && gate_refusal(
                cmd,
                loaded,
            ) is None && port is Ok
            &&& blocked matches Some(e) ==> refusal == Some(refusal_reply(e))
            &&& blocked is None && !tone ==> refusal == Some(refusal_reply("missing freq_hz"@))
            &&& blocked is None && tone && loud ==> refusal == Some(
                refusal_reply(limits.refusal@),
            )
            &&& blocked is None && tone && !loud && gate_refusal(cmd, loaded) is Some ==> refusal
                == gate_refusal(cmd, loaded)
        }),
        ({
            let refusal = sweep_frequency_refusal(l, cmd, loaded, limits);
            let blocked = l.blocked("sweep_frequency"@);
            let loud = limits.max_dbfs.below(number_or(cmd, "level_dbfs"@, limits.default_dbfs));
            let port = output_of(l.cfg@, texts(l.playback@));
            &&& refusal is None <==> blocked is None && !loud && gate_refusal(cmd, loaded) is None
                && port is Ok
            &&& blocked matches Some(e) ==> refusal == Some(refusal_reply(e))
            &&& blocked is None && loud ==> refusal == Some(refusal_reply(limits.refusal@))
            &&& blocked is None && !loud && gate_refusal(cmd, loaded) is Some ==> refusal
                == gate_refusal(cmd, loaded)
        }),
{
}

/// A calibration that cannot be read stands in the way of a level in a
/// physical unit alone; an unknown unit is always refused.
pub proof fn an_unreadable_calibration_refuses_physical_levels(
    cmd: JsonV,
    loaded: Result<Option<PairCal>, String>,
)
    ensures
        unit_of(cmd) is None ==> gate_refusal(cmd, loaded) == Some(unit_refusal(cmd)),
        unit_of(cmd) == Some(LevelUnit::Dbfs) ==> gate_refusal(cmd, loaded) is None,
        unit_of(cmd) is Some && loaded is Ok ==> gate_refusal(cmd, loaded) is None,
        unit_of(cmd) == Some(LevelUnit::Dbu) || unit_of(cmd) == Some(LevelUnit::Vrms) ==> (
        loaded matches Err(why) ==> gate_refusal(cmd, loaded) == Some(refusal_reply(why@))),
        loaded matches Ok(pair) ==> planned_pair(loaded) == pair,
        loaded is Err ==> planned_pair(loaded) is None,
{
}

} // verus!
