//! `session_check`: measure both calibration layers on the loopback now.
use vstd::prelude::*;

use crate::busy::{blocker, busy_text, check_busy, CommandGroups};
use crate::checks::{refusal_record_of, refusal_record_value, LayerVerdict};
use crate::config::Config;
use crate::double::Double;
use crate::echo::{json_text, quote_json};
use crate::gate::{
    backend_unavailable, configured_loopback, key_text, loopback_of, selected_backend, Loopback,
    LoopbackV, NO_LOOPBACK,
};
use crate::json::{fields_read_back, finite_or_null, Json, JsonV, opt_text, views};
use crate::settings::{ok, ok_reply};
use crate::tau::{TauConditions, TauEntry, TauOutcome};
use crate::text::{character_order_is_total, is_no_later, no_later, str_eq, texts};
use crate::wire::{refusal_reply, refuse};

verus! {

/// Why the `layers` of a request are refused.
pub ghost enum LayersFault {
    /// The element at this index names no layer.
    Unknown { index: int },
    NotArray,
}

/// The layers that a list names, from index `from` on, on top of those found
/// before.
pub open spec fn scan_layers(
    items: Seq<JsonV>,
    from: nat,
    voltage: bool,
    latency: bool,
) -> Result<(bool, bool), LayersFault>
    decreases items.len() - from,
{
    if from >= items.len() {
        Ok((voltage, latency))
    } else if items[from as int].str_of() == Some("voltage"@) {
        scan_layers(items, from + 1, true, latency)
    } else if items[from as int].str_of() == Some("latency"@) {
        scan_layers(items, from + 1, voltage, true)
    } else {
        Err(LayersFault::Unknown { index: from as int })
    }
}

/// Whether the voltage and the latency layer are asked for: both when the
/// request names none.
pub open spec fn layers_of(cmd: JsonV) -> Result<(bool, bool), LayersFault> {
    match cmd.field("layers"@) {
        None => Ok((true, true)),
        Some(JsonV::Null) => Ok((true, true)),
        Some(JsonV::Arr(items)) => scan_layers(items, 0, false, false),
        Some(_) => Err(LayersFault::NotArray),
    }
}

proof fn distinct_layer_names()
    ensures
        "voltage"@ != "latency"@,
{
    reveal_strlit("voltage");
    reveal_strlit("latency");
    assert("voltage"@[0] == 'v');
    assert("latency"@[0] == 'l');
}

/// The refusal of `layers`, which quotes the element that names no layer, or
/// the whole field.
pub open spec fn layers_refusal_text(fault: LayersFault, layers: JsonV) -> Seq<char> {
    match fault {
        LayersFault::Unknown { index } => "layers: unknown layer "@ + json_text(
            layers->Arr_0[index],
        ) + "; use \"latency\", \"voltage\""@,
        LayersFault::NotArray => "layers must be an array, got "@ + json_text(layers),
    }
}

/// The refusal of the `layers` of a request; nothing when they are accepted.
pub open spec fn layers_refusal_of(cmd: JsonV) -> Option<JsonV> {
    match layers_of(cmd) {
        Ok(_) => None,
        Err(fault) => Some(refusal_reply(layers_refusal_text(fault, cmd.field("layers"@)->0))),
    }
}

/// The layers that a request asks for, or the refusal that quotes the bad
/// part.
pub fn requested_layers(cmd: &Json) -> (r: Result<(bool, bool), Json>)
    ensures
        match r {
            Ok(l) => layers_of(cmd@) == Ok::<(bool, bool), LayersFault>(l),
            Err(e) => layers_refusal_of(cmd@) == Some(e@),
        },
{
    let v = match cmd.get("layers") {
        None => return Ok((true, true)),
        Some(v) => v,
    };
    if v.is_null() {
        return Ok((true, true));
    }
    let items = match v.as_array() {
        None => return Err(
            refuse(
                "layers must be an array, got ".to_owned().concat(quote_json(v).as_str()).as_str(),
            ),
        ),
        Some(items) => items,
    };
    let ghost all = views(items@);
    let mut voltage: bool = false;
    let mut latency: bool = false;
    let mut i: usize = 0;
    while i < items.len()
        invariant
            i <= items.len(),
            all == views(items@),
            cmd@.field("layers"@) == Some(JsonV::Arr(all)),
            scan_layers(all, 0, false, false) == scan_layers(all, i as nat, voltage, latency),
            layers_of(cmd@) == scan_layers(all, 0, false, false),
        decreases items.len() - i,
    {
        assert(all[i as int] == items@[i as int]@);
        let known: bool = match items[i].as_str() {
            Some(s) => if str_eq(s, "voltage") {
                voltage = true;
                true
            } else if str_eq(s, "latency") {
                latency = true;
                true
            } else {
                false
            },
            None => false,
        };
        proof {
            distinct_layer_names();
        }
        if !known {
            return Err(
                refuse(
                    "layers: unknown layer ".to_owned().concat(
                        quote_json(&items[i]).as_str(),
                    ).concat("; use \"latency\", \"voltage\"").as_str(),
                ),
            );
        }
        i = i + 1;
    }
    Ok((voltage, latency))
}

/// An accepted `session_check`.
pub struct SessionPlan {
    pub want_voltage: bool,
    pub want_latency: bool,
    pub loopback: Loopback,
    pub backend: String,
    pub fake: bool,
}

/// The first reason to refuse a `session_check`: another worker, an
/// unreadable configuration, the layers, the loopback, the backend. From the
/// loopback on the reply tells how the refusal file was read.
pub open spec fn session_refusal(
    groups: &CommandGroups,
    running: Seq<Seq<char>>,
    cfg_fault: Option<Seq<char>>,
    cmd: JsonV,
    unreadable: Option<Seq<char>>,
    loopback: Result<Option<LoopbackV>, Seq<char>>,
    required: Seq<char>,
    selected: Option<Seq<char>>,
) -> Option<JsonV> {
    match blocker(groups, running, "session_check"@) {
        Some(name) => Some(refusal_reply(busy_text(name))),
        None => match cfg_fault {
            Some(e) => Some(refusal_reply(e)),
            None => match layers_refusal_of(cmd) {
                Some(e) => Some(e),
                None => match loopback {
                    Ok(None) => Some(recorded_refusal(NO_LOOPBACK@, unreadable)),
                    Err(e) => Some(recorded_refusal(e, unreadable)),
                    Ok(Some(_)) => if selected is None {
                        Some(recorded_refusal(backend_unavailable(required), unreadable))
                    } else {
                        None
                    },
                },
            },
        },
    }
}

/// A refusal that tells how the refusal file was read.
pub open spec fn recorded_refusal(error: Seq<char>, unreadable: Option<Seq<char>>) -> JsonV {
    refusal_reply(error).with("refusal_record"@, refusal_record_of(unreadable))
}

fn refuse_recorded(error: &str, unreadable: &Option<String>) -> (r: Json)
    ensures
        r@ == recorded_refusal(error@, opt_text(*unreadable)),
{
    refuse(error).with("refusal_record", refusal_record_value(unreadable))
}

/// `session_check`, up to the start of its worker: the plan, or the first
/// refusal. `unreadable` is what was observed of a refusal file that could not
/// be read, `required` and `selected` the backend that is asked for and the one
/// that is there.
pub fn session_check(
    groups: &CommandGroups,
    running: &Vec<String>,
    cfg_fault: &Option<String>,
    cmd: &Json,
    unreadable: &Option<String>,
    cfg: &Config,
    playback: &Vec<String>,
    capture: &Vec<String>,
    fake_audio: bool,
    required: &str,
    selected: &Option<String>,
) -> (r: Result<SessionPlan, Json>)
    ensures
        match r {
            Err(e) => session_refusal(
                groups,
                texts(running@),
                opt_text(*cfg_fault),
                cmd@,
                opt_text(*unreadable),
                loopback_of(cfg@, texts(playback@), texts(capture@)),
                required@,
                opt_text(*selected),
            ) == Some(e@),
            Ok(p) => {
                &&& session_refusal(
                    groups,
                    texts(running@),
                    opt_text(*cfg_fault),
                    cmd@,
                    opt_text(*unreadable),
                    loopback_of(cfg@, texts(playback@), texts(capture@)),
                    required@,
                    opt_text(*selected),
                ) is None
                &&& layers_of(cmd@) == Ok::<(bool, bool), LayersFault>(
                    (p.want_voltage, p.want_latency),
                )
                &&& loopback_of(cfg@, texts(playback@), texts(capture@)) == Ok::<
                    Option<LoopbackV>,
                    Seq<char>,
                >(Some(p.loopback@))
                &&& opt_text(*selected) == Some(p.backend@)
                &&& p.fake == (fake_audio || p.backend@ == "fake"@)
            },
        },
{
    match check_busy(groups, running, "session_check") {
        Some(msg) => return Err(refuse(msg.as_str())),
        None => {},
    }
    match cfg_fault {
        Some(e) => return Err(refuse(e.as_str())),
        None => {},
    }
    let (want_voltage, want_latency) = match requested_layers(cmd) {
        Ok(l) => l,
        Err(e) => return Err(e),
    };
    let loopback = match configured_loopback(cfg, playback, capture) {
        Ok(Some(l)) => l,
        Ok(None) => return Err(refuse_recorded(NO_LOOPBACK, unreadable)),
        Err(e) => return Err(refuse_recorded(e.as_str(), unreadable)),
    };
    let backend = match selected_backend(required, selected) {
        Ok(b) => b,
        Err(e) => return Err(refuse_recorded(e.as_str(), unreadable)),
    };
    let fake: bool = fake_audio || str_eq(backend.as_str(), "fake");
    Ok(SessionPlan { want_voltage, want_latency, loopback, backend, fake })
}

/// The reply to an accepted `session_check`.
pub open spec fn session_reply(
    loopback: LoopbackV,
    probed: bool,
    unreadable: Option<Seq<char>>,
    probe_level_dbfs: Double,
    probe_freq_hz: Double,
    backend: Seq<char>,
) -> JsonV {
    ok_reply().with(
        "loopback"@,
        JsonV::obj().with("key"@, JsonV::Str(key_text(loopback.out_ch, loopback.in_ch))).with(
            "output_port"@,
            JsonV::Str(loopback.output_port),
        ).with("input_port"@, JsonV::Str(loopback.input_port)),
    ).with(
        "stimulus"@,
        if probed {
            JsonV::obj().with("level_dbfs"@, finite_or_null(probe_level_dbfs)).with(
                "freq_hz"@,
                finite_or_null(probe_freq_hz),
            )
        } else {
            JsonV::Null
        },
    ).with("refusal_record"@, refusal_record_of(unreadable)).with(
        "backend"@,
        JsonV::Str(backend),
    )
}

/// The reply to an accepted `session_check`; the stimulus is named when the
/// voltage layer is probed.
pub fn session_started(
    plan: &SessionPlan,
    unreadable: &Option<String>,
    probe_level_dbfs: Double,
    probe_freq_hz: Double,
) -> (r: Json)
    ensures
        r@ == session_reply(
            plan.loopback@,
            plan.want_voltage,
            opt_text(*unreadable),
            probe_level_dbfs,
            probe_freq_hz,
            plan.backend@,
        ),
{
    let loopback = Json::obj().with("key", Json::Str(plan.loopback.key())).with(
        "output_port",
        Json::string(plan.loopback.output_port.as_str()),
    ).with("input_port", Json::string(plan.loopback.input_port.as_str()));
    let stimulus = if plan.want_voltage {
        Json::obj().with("level_dbfs", Json::float(probe_level_dbfs)).with(
            "freq_hz",
            Json::float(probe_freq_hz),
        )
    } else {
        Json::Null
    };
    ok().with("loopback", loopback).with("stimulus", stimulus).with(
        "refusal_record",
        refusal_record_value(unreadable),
    ).with("backend", Json::string(plan.backend.as_str()))
}

/// What the worker of a `session_check` does next.
#[derive(Clone, Copy, Debug, PartialEq, Eq, Structural)]
pub enum SessionStep {
    CheckVoltage,
    MeasureLatency,
    /// Stopped: report it and record nothing.
    Stopped,
    /// Record and publish what was found.
    Finish,
}

/// The next step, from what is still to be done.
pub open spec fn step_of(voltage: bool, latency: bool, stopped: bool) -> SessionStep {
    if voltage {
        SessionStep::CheckVoltage
    } else if stopped {
        SessionStep::Stopped
    } else if latency {
        SessionStep::MeasureLatency
    } else {
        SessionStep::Finish
    }
}

/// The next step: the voltage layer, then the latency layer unless the worker
/// was stopped, then the end.
pub fn session_step(
    plan: &SessionPlan,
    voltage_done: bool,
    latency_done: bool,
    stopped: bool,
) -> (r: SessionStep)
    ensures
        r == step_of(
            plan.want_voltage && !voltage_done,
            plan.want_latency && !latency_done,
            stopped,
        ),
{
    if plan.want_voltage && !voltage_done {
        SessionStep::CheckVoltage
    } else if stopped {
        SessionStep::Stopped
    } else if plan.want_latency && !latency_done {
        SessionStep::MeasureLatency
    } else {
        SessionStep::Finish
    }
}

/// The error frame of a stopped check.
pub fn stopped_frame() -> (r: Json)
    ensures
        r@ == JsonV::obj().with("cmd"@, JsonV::Str("session_check"@)).with(
            "message"@,
            JsonV::Str("session check stopped"@),
        ),
{
    Json::obj().with("cmd", Json::string("session_check")).with(
        "message",
        Json::string("session check stopped"),
    )
}

/// The frame of a finished check.
pub fn done_frame(plan: &SessionPlan) -> (r: Json)
    ensures
        r@ == JsonV::obj().with("cmd"@, JsonV::Str("session_check"@)).with(
            "backend"@,
            JsonV::Str(plan.backend@),
        ),
{
    Json::obj().with("cmd", Json::string("session_check")).with(
        "backend",
        Json::string(plan.backend.as_str()),
    )
}

/// How the voltage layer is judged.
pub enum VoltageStep {
    /// Nothing is stored: unverified, without a probe.
    NotStored { reason: String },
    /// Decided without a probe.
    Decided { verdict: LayerVerdict },
    /// Probe the loopback and judge the reading.
    Probe,
}

impl VoltageStep {
    /// The step is the one for a scale that is stored or not, and that is
    /// decided already or not.
    pub open spec fn judges(&self, stored: bool, precheck: Option<LayerVerdict>) -> bool {
        &&& !stored ==> (*self matches VoltageStep::NotStored { reason } && reason@
            == "no voltage calibration stored"@)
        &&& stored ==> match precheck {
            Some(verdict) => *self == (VoltageStep::Decided { verdict }),
            None => *self is Probe,
        }
    }
}

/// How the voltage layer is judged: a stored scale is needed, and the probe
/// runs only when what is stored does not already decide.
pub fn voltage_step(stored: bool, precheck: Option<LayerVerdict>) -> (r: VoltageStep)
    ensures
        r.judges(stored, precheck),
{
    if !stored {
        return VoltageStep::NotStored { reason: "no voltage calibration stored".to_owned() };
    }
    match precheck {
        Some(verdict) => VoltageStep::Decided { verdict },
        None => VoltageStep::Probe,
    }
}

/// The tone found in a probe block.
#[derive(Clone, Copy, Debug, PartialEq, Eq, Structural)]
pub struct ToneReading {
    pub fundamental_dbfs: Double,
    pub noise_floor_dbfs: Double,
    pub n: usize,
}

/// What the analysis of a captured block found.
#[derive(Clone, Copy, Debug)]
pub struct BlockReading {
    pub n: usize,
    pub total_peak_dbfs: Double,
    /// Fundamental and noise floor, when a tone was resolved.
    pub tone: Option<(Double, Double)>,
}

/// A reading of the loopback probe.
#[derive(Debug)]
pub struct ProbeReading {
    pub capture: Result<(), String>,
    pub xruns_delta: u32,
    pub total_peak_dbfs: Option<Double>,
    pub tone: Option<ToneReading>,
}

/// The reading of one captured block.
pub open spec fn reading_of(block: Result<BlockReading, String>, xruns_delta: u32) -> ProbeReading {
    match block {
        Err(e) => ProbeReading {
            capture: Err(e),
            xruns_delta,
            total_peak_dbfs: None,
            tone: None,
        },
        Ok(b) => ProbeReading {
            capture: Ok(()),
            xruns_delta,
            total_peak_dbfs: Some(b.total_peak_dbfs),
            tone: match b.tone {
                Some((f, n)) => Some(
                    ToneReading { fundamental_dbfs: f, noise_floor_dbfs: n, n: b.n },
                ),
                None => None,
            },
        },
    }
}

/// Turn one captured block into a reading. A capture error stays an error; it
/// never reads as silence, which would be refused as a silent loop.
pub fn reading_from_block(block: Result<BlockReading, String>, xruns_delta: u32) -> (r:
    ProbeReading)
    ensures
        r == reading_of(block, xruns_delta),
{
    match block {
        Err(e) => ProbeReading {
            capture: Err(e),
            xruns_delta,
            total_peak_dbfs: None,
            tone: None,
        },
        Ok(b) => ProbeReading {
            capture: Ok(()),
            xruns_delta,
            total_peak_dbfs: Some(b.total_peak_dbfs),
            tone: match b.tone {
                Some((f, n)) => Some(
                    ToneReading { fundamental_dbfs: f, noise_floor_dbfs: n, n: b.n },
                ),
                None => None,
            },
        },
    }
}

/// Xruns between two readings of a counter that wraps.
pub open spec fn counted(before: u32, after: u32) -> int {
    if after >= before {
        after - before
    } else {
        after + 0x1_0000_0000 - before
    }
}

/// Xruns between two readings of a counter that wraps.
pub fn xruns_between(before: u32, after: u32) -> (r: u32)
    ensures
        r == counted(before, after),
{
    after.wrapping_sub(before)
}

/// Why a latency attempt measured nothing; `first` and `second` are the two
/// readings in samples, as text.
pub open spec fn not_measured_text(
    outcome: TauOutcome,
    first: Seq<char>,
    second: Seq<char>,
) -> Seq<char> {
    match outcome {
        TauOutcome::Disagree { .. } => "2 lifetimes disagree: "@ + first + " and "@ + second
            + " samples"@,
        TauOutcome::Error { message, .. } => message@,
        _ => "\u{3c4} reading refused ("@ + outcome.state_text() + ")"@,
    }
}

/// Why a latency attempt measured nothing.
pub fn tau_not_measured_reason(outcome: &TauOutcome, first: &str, second: &str) -> (r: String)
    ensures
        r@ == not_measured_text(*outcome, first@, second@),
{
    match outcome {
        TauOutcome::Disagree { .. } => "2 lifetimes disagree: ".to_owned().concat(first).concat(
            " and ",
        ).concat(second).concat(" samples"),
        TauOutcome::Error { message, .. } => message.clone(),
        _ => "\u{3c4} reading refused (".to_owned().concat(outcome.state()).concat(")"),
    }
}

/// What a check on a loopback judged about latency.
#[derive(Debug)]
pub struct JudgedRecord {
    pub loopback_key: String,
    /// The pairs that the record reaches.
    pub reach: Vec<String>,
    pub ran_at: String,
    pub judged: Option<TauConditions>,
}

/// Whether a record judged the latency of a pair, directly or by reach.
pub open spec fn judges(r: JudgedRecord, key: Seq<char>) -> bool {
    &&& r.judged is Some
    &&& r.loopback_key@ == key || exists|k: int|
        0 <= k < r.reach.len() && (#[trigger] r.reach@[k])@ == key
}

fn record_judges(r: &JudgedRecord, key: &str) -> (b: bool)
    ensures
        b == judges(*r, key@),
{
    if r.judged.is_none() {
        return false;
    }
    if str_eq(r.loopback_key.as_str(), key) {
        return true;
    }
    let mut k: usize = 0;
    while k < r.reach.len()
        invariant
            k <= r.reach.len(),
            r.judged is Some,
            r.loopback_key@ != key@,
            forall|j: int| 0 <= j < k ==> (#[trigger] r.reach@[j])@ != key@,
        decreases r.reach.len() - k,
    {
        if str_eq(r.reach[k].as_str(), key) {
            assert(r.reach@[k as int]@ == key@);
            return true;
        }
        k = k + 1;
    }
    false
}

/// The newest judging record among the first `n`: of equal times the last.
pub open spec fn newest_judged(records: Seq<JudgedRecord>, key: Seq<char>, n: int) -> Option<int>
    decreases n,
{
    if n <= 0 {
        None
    } else {
        let before = newest_judged(records, key, n - 1);
        if judges(records[n - 1], key) && (before is None || no_later(
            records[before->0].ran_at@,
            records[n - 1].ran_at@,
        )) {
            Some(n - 1)
        } else {
            before
        }
    }
}

/// Whether an entry was measured on the device, backend, rate and period of
/// the given conditions.
pub open spec fn shares(e: TauEntry, c: TauConditions) -> bool {
    &&& e.conditions.device == c.device
    &&& e.conditions.backend@ == c.backend@
    &&& e.conditions.sample_rate == c.sample_rate
    &&& e.conditions.period_size == c.period_size
}

fn entry_shares(e: &TauEntry, c: &TauConditions) -> (b: bool)
    ensures
        b == shares(*e, *c),
{
    let period: bool = match (e.conditions.period_size, c.period_size) {
        (Some(a), Some(b)) => a == b,
        (None, None) => true,
        _ => false,
    };
    e.conditions.device == c.device && str_eq(
        e.conditions.backend.as_str(),
        c.backend.as_str(),
    ) && e.conditions.sample_rate == c.sample_rate && period
}

/// The newest of the first `n` entries that are wanted: all of them, or those
/// that share conditions. Of equal times the last.
pub open spec fn newest_entry(history: Seq<TauEntry>, c: Option<TauConditions>, n: int) -> Option<
    int,
>
    decreases n,
{
    if n <= 0 {
        None
    } else {
        let before = newest_entry(history, c, n - 1);
        let wanted = match c {
            Some(c) => shares(history[n - 1], c),
            None => true,
        };
        if wanted && (before is None || no_later(
            history[before->0].measured_at@,
            history[n - 1].measured_at@,
        )) {
            Some(n - 1)
        } else {
            before
        }
    }
}

proof fn newest_entry_in_range(history: Seq<TauEntry>, c: Option<TauConditions>, n: int)
    ensures
        newest_entry(history, c, n) matches Some(i) ==> 0 <= i < n,
    decreases n,
{
    if n > 0 {
        newest_entry_in_range(history, c, n - 1);
    }
}

proof fn newest_judged_in_range(records: Seq<JudgedRecord>, key: Seq<char>, n: int)
    ensures
        newest_judged(records, key, n) matches Some(i) ==> 0 <= i < n && judges(records[i], key),
    decreases n,
{
    if n > 0 {
        newest_judged_in_range(records, key, n - 1);
    }
}

fn find_newest(history: &Vec<TauEntry>, c: Option<&TauConditions>) -> (r: Option<usize>)
    ensures
        match (
            r,
            newest_entry(
                history@,
                match c {
                    Some(x) => Some(*x),
                    None => None,
                },
                history@.len() as int,
            ),
        ) {
            (Some(i), Some(j)) => i == j && i < history.len(),
            (None, None) => true,
            _ => false,
        },
{
    let ghost want: Option<TauConditions> = match c {
        Some(x) => Some(*x),
        None => None,
    };
    let mut best: Option<usize> = None;
    let mut i: usize = 0;
    while i < history.len()
        invariant
            i <= history.len(),
            want == (match c {
                Some(x) => Some(*x),
                None => None,
            }),
            match (best, newest_entry(history@, want, i as int)) {
                (Some(a), Some(b)) => a == b && a < i,
                (None, None) => true,
                _ => false,
            },
        decreases history.len() - i,
    {
        let wanted: bool = match c {
            Some(x) => entry_shares(&history[i], x),
            None => true,
        };
        let later: bool = match best {
            None => true,
            Some(b) => is_no_later(
                history[b].measured_at.as_str(),
                history[i].measured_at.as_str(),
            ),
        };
        if wanted && later {
            best = Some(i);
        }
        i = i + 1;
    }
    best
}

/// The entry of a pair's history that a live verdict is about: the newest of
/// those that share device, backend, rate and period with what the newest
/// judging check judged, or the newest of all.
pub open spec fn live_entry(
    records: Seq<JudgedRecord>,
    key: Seq<char>,
    history: Seq<TauEntry>,
) -> Option<int> {
    let all = newest_entry(history, None, history.len() as int);
    match newest_judged(records, key, records.len() as int) {
        Some(i) => match newest_entry(history, records[i].judged, history.len() as int) {
            Some(e) => Some(e),
            None => all,
        },
        None => all,
    }
}

/// The entry of a pair's history that a live verdict is about. `records` are
/// those of this process followed by those of the file.
pub fn latest_tau_entry(records: &Vec<JudgedRecord>, key: &str, history: &Vec<TauEntry>) -> (r:
    Option<usize>)
    ensures
        match (r, live_entry(records@, key@, history@)) {
            (Some(i), Some(j)) => i == j && i < history.len(),
            (None, None) => true,
            _ => false,
        },
{
    let mut best: Option<usize> = None;
    let mut i: usize = 0;
    while i < records.len()
        invariant
            i <= records.len(),
            match (best, newest_judged(records@, key@, i as int)) {
                (Some(a), Some(b)) => a == b && a < i,
                (None, None) => true,
                _ => false,
            },
        decreases records.len() - i,
    {
        let later: bool = match best {
            None => true,
            Some(b) => is_no_later(records[b].ran_at.as_str(), records[i].ran_at.as_str()),
        };
        if record_judges(&records[i], key) && later {
            best = Some(i);
        }
        i = i + 1;
    }
    proof {
        newest_judged_in_range(records@, key@, records@.len() as int);
    }
    match best {
        Some(b) => match &records[b].judged {
            Some(c) => match find_newest(history, Some(c)) {
                Some(e) => return Some(e),
                None => {},
            },
            None => {},
        },
        None => {},
    }
    find_newest(history, None)
}

proof fn scanning(items: Seq<JsonV>, from: nat, voltage: bool, latency: bool)
    requires
        from <= items.len(),
    ensures
        match scan_layers(items, from, voltage, latency) {
            Ok((v, l)) => {
                &&& v <==> voltage || exists|i: int|
                    from <= i < items.len() && (#[trigger] items[i]).str_of() == Some("voltage"@)
                &&& l <==> latency || exists|i: int|
                    from <= i < items.len() && (#[trigger] items[i]).str_of() == Some("latency"@)
                &&& forall|i: int|
                    from <= i < items.len() ==> (#[trigger] items[i]).str_of() == Some("voltage"@)
                        || items[i].str_of() == Some("latency"@)
            },
            Err(LayersFault::Unknown { index }) => {
                &&& from <= index < items.len()
                &&& items[index].str_of() != Some("voltage"@)
                &&& items[index].str_of() != Some("latency"@)
                &&& forall|i: int|
                    from <= i < index ==> (#[trigger] items[i]).str_of() == Some("voltage"@)
                        || items[i].str_of() == Some("latency"@)
            },
            Err(LayersFault::NotArray) => false,
        },
    decreases items.len() - from,
{
    distinct_layer_names();
    if from < items.len() {
        if items[from as int].str_of() == Some("voltage"@) {
            scanning(items, from + 1, true, latency);
        } else if items[from as int].str_of() == Some("latency"@) {
            scanning(items, from + 1, voltage, true);
        }
    }
}

/// A list of layers asks for exactly the layers that it names, each by its own
/// name; it is refused for its first element that names none.
pub proof fn layers_are_asked_for_by_name(cmd: JsonV, items: Seq<JsonV>)
    requires
        cmd.field("layers"@) == Some(JsonV::Arr(items)),
    ensures
        layers_of(cmd) is Ok <==> forall|i: int|
            0 <= i < items.len() ==> (#[trigger] items[i]).str_of() == Some("voltage"@)
                || items[i].str_of() == Some("latency"@),
        layers_of(cmd) matches Ok((voltage, latency)) ==> (voltage <==> exists|i: int|
            0 <= i < items.len() && (#[trigger] items[i]).str_of() == Some("voltage"@)) && (latency
            <==> exists|i: int|
            0 <= i < items.len() && (#[trigger] items[i]).str_of() == Some("latency"@)),
        layers_of(cmd) matches Err(LayersFault::Unknown { index }) ==> 0 <= index < items.len()
            && items[index].str_of() != Some("voltage"@) && items[index].str_of() != Some(
            "latency"@,
        ) && forall|i: int|
            0 <= i < index ==> (#[trigger] items[i]).str_of() == Some("voltage"@)
                || items[i].str_of() == Some("latency"@),
{
    scanning(items, 0, false, false);
}

/// A request that names no layers asks for both; what is no list is refused.
pub proof fn both_layers_are_checked_by_default(cmd: JsonV)
    ensures
        cmd.field("layers"@) is None || cmd.field("layers"@) == Some(JsonV::Null) ==> layers_of(cmd)
            == Ok::<(bool, bool), LayersFault>((true, true)),
        cmd.field("layers"@) matches Some(v) ==> (!(v is Null) && !(v is Arr) ==> layers_of(cmd)
            == Err::<(bool, bool), LayersFault>(LayersFault::NotArray)),
        layers_refusal_of(cmd) is None <==> layers_of(cmd) is Ok,
{
}

/// A check starts exactly where nothing keeps it: no other worker, a readable
/// configuration, layers that exist, a loopback and a backend. The first of
/// these that is missing is the one that is told, and from the loopback on the
/// reply tells how the refusal file was read.
pub proof fn a_check_is_refused_for_what_it_lacks(
    groups: &CommandGroups,
    running: Seq<Seq<char>>,
    fault: Option<Seq<char>>,
    cmd: JsonV,
    unreadable: Option<Seq<char>>,
    loopback: Result<Option<LoopbackV>, Seq<char>>,
    required: Seq<char>,
    selected: Option<Seq<char>>,
)
    ensures
        ({
            let refusal = session_refusal(
                groups,
                running,
                fault,
                cmd,
                unreadable,
                loopback,
                required,
                selected,
            );
            let busy = blocker(groups, running, "session_check"@);
            let layers = layers_refusal_of(cmd);
            let found = loopback is Ok && loopback->Ok_0 is Some;
            &&& refusal is None <==> busy is None && fault is None && layers is None && found
                && selected is Some
            &&& busy matches Some(w) ==> refusal == Some(refusal_reply(busy_text(w)))
            &&& busy is None ==> (fault matches Some(e) ==> refusal == Some(refusal_reply(e)))
            &&& busy is None && fault is None && layers is Some ==> refusal == layers
            &&& busy is None && fault is None && layers is None && !found ==> refusal is Some
                && refusal->0.field("refusal_record"@) == Some(refusal_record_of(unreadable))
                && refusal->0.field("ok"@) == Some(JsonV::Bool(false)) && refusal->0.field(
                "error"@,
            ) == Some(
                JsonV::Str(
                    if loopback is Err {
                        loopback->Err_0
                    } else {
                        NO_LOOPBACK@
                    },
                ),
            )
            &&& busy is None && fault is None && layers is None && found && selected is None
                ==> refusal is Some && refusal->0.field("refusal_record"@) == Some(
                refusal_record_of(unreadable),
            ) && refusal->0.field("error"@) == Some(JsonV::Str(backend_unavailable(required)))
        }),
{
    fields_read_back();
    reveal_strlit("ok");
    reveal_strlit("error");
    reveal_strlit("refusal_record");
    assert("ok"@.len() == 2);
    assert("error"@.len() == 5);
    assert("refusal_record"@.len() == 14);
}

/// The reply to a check names the loopback by its key and by its two ports,
/// each as what it is, the stimulus where one is played, and the backend.
pub proof fn a_check_is_told_by_name(
    loopback: LoopbackV,
    probed: bool,
    unreadable: Option<Seq<char>>,
    level: Double,
    at_hz: Double,
    backend: Seq<char>,
)
    ensures
        ({
            let reply = session_reply(loopback, probed, unreadable, level, at_hz, backend);
            &&& reply.field("ok"@) == Some(JsonV::Bool(true))
            &&& reply.field("backend"@) == Some(JsonV::Str(backend))
            &&& reply.field("refusal_record"@) == Some(refusal_record_of(unreadable))
            &&& reply.field("loopback"@) matches Some(told) && told.field("key"@) == Some(
                JsonV::Str(key_text(loopback.out_ch, loopback.in_ch)),
            ) && told.field("output_port"@) == Some(JsonV::Str(loopback.output_port))
                && told.field("input_port"@) == Some(JsonV::Str(loopback.input_port))
            &&& !probed ==> reply.field("stimulus"@) == Some(JsonV::Null)
            &&& probed ==> (reply.field("stimulus"@) matches Some(tone) && tone.field("level_dbfs"@)
                == Some(finite_or_null(level)) && tone.field("freq_hz"@) == Some(
                finite_or_null(at_hz),
            ))
        }),
{
    fields_read_back();
    reveal_strlit("ok");
    reveal_strlit("loopback");
    reveal_strlit("stimulus");
    reveal_strlit("refusal_record");
    reveal_strlit("backend");
    reveal_strlit("key");
    reveal_strlit("output_port");
    reveal_strlit("input_port");
    reveal_strlit("level_dbfs");
    reveal_strlit("freq_hz");
    assert("ok"@.len() == 2);
    assert("loopback"@.len() == 8);
    assert("stimulus"@.len() == 8);
    assert("refusal_record"@.len() == 14);
    assert("backend"@.len() == 7);
    assert("key"@.len() == 3);
    assert("output_port"@.len() == 11);
    assert("input_port"@.len() == 10);
    assert("level_dbfs"@.len() == 10);
    assert("freq_hz"@.len() == 7);
    assert("loopback"@[0] != "stimulus"@[0]);
    assert("backend"@[0] != "freq_hz"@[0]);
    assert("input_port"@[0] != "level_dbfs"@[0]);
}

/// A check looks at the voltage first and at the latency second, each once and
/// only where it is wanted; a stop after the voltage leaves the latency out
/// and records nothing.
pub proof fn layers_are_checked_in_turn(voltage: bool, latency: bool, stopped: bool)
    ensures
        step_of(voltage, latency, stopped) == SessionStep::CheckVoltage <==> voltage,
        step_of(voltage, latency, stopped) == SessionStep::MeasureLatency <==> latency && !voltage
            && !stopped,
        step_of(voltage, latency, stopped) == SessionStep::Stopped <==> stopped && !voltage,
        step_of(voltage, latency, stopped) == SessionStep::Finish <==> !voltage && !latency
            && !stopped,
{
}

/// The loopback is probed exactly where a scale is stored that nothing decides
/// yet; what is decided already is taken as it is.
pub proof fn a_probe_runs_where_nothing_decides(
    step: VoltageStep,
    stored: bool,
    precheck: Option<LayerVerdict>,
)
    requires
        step.judges(stored, precheck),
    ensures
        step is Probe <==> stored && precheck is None,
        step is NotStored <==> !stored,
        step matches VoltageStep::Decided { verdict } ==> stored && precheck == Some(verdict),
{
}

/// A reading of a probe keeps what the block showed, each level as what it is;
/// a capture that failed stays a failure and shows neither a level nor a tone.
pub proof fn a_failed_capture_is_never_silence(block: Result<BlockReading, String>, crossed: u32)
    ensures
        ({
            let r = reading_of(block, crossed);
            &&& r.xruns_delta == crossed
            &&& r.capture is Ok <==> block is Ok
            &&& block matches Err(e) ==> r.capture == Err::<(), String>(e) && r.total_peak_dbfs
                is None && r.tone is None
            &&& block matches Ok(b) ==> r.total_peak_dbfs == Some(b.total_peak_dbfs) && (r.tone
                is Some <==> b.tone is Some) && (b.tone matches Some((tone_db, floor_db))
                ==> r.tone->0.fundamental_dbfs == tone_db && r.tone->0.noise_floor_dbfs == floor_db
                && r.tone->0.n == b.n)
        }),
{
}

/// A counter that wraps tells how often it was counted up between two
/// readings: adding that to the first gives the second.
pub proof fn counts_add_up(before: u32, after: u32)
    ensures
        0 <= counted(before, after) <= u32::MAX,
        (before + counted(before, after)) % 0x1_0000_0000 == after as int,
        counted(before, before) == 0,
{
}

/// The record that decides is one that judged the pair, and no judging record
/// is newer; of equally new ones it is the last.
pub proof fn the_newest_judgement_decides(records: Seq<JudgedRecord>, key: Seq<char>, n: int)
    requires
        0 <= n <= records.len(),
    ensures
        match newest_judged(records, key, n) {
            Some(i) => {
                &&& 0 <= i < n && judges(records[i], key)
                &&& forall|k: int|
                    0 <= k < n && judges(#[trigger] records[k], key) ==> no_later(
                        records[k].ran_at@,
                        records[i].ran_at@,
                    ) && (i < k ==> !no_later(records[i].ran_at@, records[k].ran_at@))
            },
            None => forall|k: int| 0 <= k < n ==> !judges(#[trigger] records[k], key),
        },
    decreases n,
{
    if n > 0 {
        the_newest_judgement_decides(records, key, n - 1);
        let last = records[n - 1];
        character_order_is_total(last.ran_at@, last.ran_at@, last.ran_at@);
        if let Some(b) = newest_judged(records, key, n - 1) {
            character_order_is_total(records[b].ran_at@, last.ran_at@, last.ran_at@);
            assert forall|k: int| 0 <= k < n && judges(#[trigger] records[k], key) implies no_later(
                records[k].ran_at@,
                records[newest_judged(records, key, n)->0].ran_at@,
            ) && (newest_judged(records, key, n)->0 < k ==> !no_later(
                records[newest_judged(records, key, n)->0].ran_at@,
                records[k].ran_at@,
            )) by {
                if k < n - 1 {
                    character_order_is_total(
                        records[k].ran_at@,
                        records[b].ran_at@,
                        last.ran_at@,
                    );
                }
            }
        }
    }
}

/// The entry that is taken from a history is wanted, and no wanted one is
/// newer; of equally new ones it is the last. None is taken exactly where none is wanted.
pub proof fn the_newest_entry_is_taken(
    history: Seq<TauEntry>,
    like: Option<TauConditions>,
    n: int,
)
    requires
        0 <= n <= history.len(),
    ensures
        match newest_entry(history, like, n) {
            Some(i) => {
                &&& 0 <= i < n && (like is None || shares(history[i], like->0))
                &&& forall|k: int|
                    0 <= k < n && (like is None || shares(#[trigger] history[k], like->0))
                        ==> no_later(history[k].measured_at@, history[i].measured_at@) && (i < k
                        ==> !no_later(history[i].measured_at@, history[k].measured_at@))
            },
            None => forall|k: int|
                0 <= k < n ==> like is Some && !shares(#[trigger] history[k], like->0),
        },
    decreases n,
{
    if n > 0 {
        the_newest_entry_is_taken(history, like, n - 1);
        let last = history[n - 1];
        character_order_is_total(last.measured_at@, last.measured_at@, last.measured_at@);
        if let Some(b) = newest_entry(history, like, n - 1) {
            character_order_is_total(
                history[b].measured_at@,
                last.measured_at@,
                last.measured_at@,
            );
            assert forall|k: int|
                0 <= k < n && (like is None || shares(#[trigger] history[k], like->0))
                    implies no_later(
                history[k].measured_at@,
                history[newest_entry(history, like, n)->0].measured_at@,
            ) && (newest_entry(history, like, n)->0 < k ==> !no_later(
                history[newest_entry(history, like, n)->0].measured_at@,
                history[k].measured_at@,
            )) by {
                if k < n - 1 {
                    character_order_is_total(
                        history[k].measured_at@,
                        history[b].measured_at@,
                        last.measured_at@,
                    );
                }
            }
        }
    }
}

/// A live verdict is about an entry of the history wherever there is one. It
/// shares its conditions with what the newest judgement of the pair judged,
/// where any entry does; else it is the newest of all.
pub proof fn a_live_verdict_is_about_the_newest_entry(
    records: Seq<JudgedRecord>,
    key: Seq<char>,
    history: Seq<TauEntry>,
)
    ensures
        live_entry(records, key, history) is Some <==> history.len() > 0,
        live_entry(records, key, history) matches Some(e) ==> 0 <= e < history.len(),
        newest_judged(records, key, records.len() as int) matches Some(i) ==> (live_entry(
            records,
            key,
            history,
        ) matches Some(e) ==> (exists|k: int|
            0 <= k < history.len() && shares(#[trigger] history[k], records[i].judged->0))
            ==> shares(history[e], records[i].judged->0)),
        newest_judged(records, key, records.len() as int) is None ==> (live_entry(
            records,
            key,
            history,
        ) matches Some(e) ==> forall|k: int|
            0 <= k < history.len() ==> no_later(
                (#[trigger] history[k]).measured_at@,
                history[e].measured_at@,
            )),
{
    let n = history.len() as int;
    the_newest_entry_is_taken(history, None, n);
    the_newest_judgement_decides(records, key, records.len() as int);
    if let Some(i) = newest_judged(records, key, records.len() as int) {
        the_newest_entry_is_taken(history, records[i].judged, n);
    }
    if n > 0 {
        assert(newest_entry(history, None, n) is Some) by {
            if newest_entry(history, None, n) is None {
                assert(history[0] == history[0]);
            }
        }
    }
    if newest_judged(records, key, records.len() as int) is None {
        if let Some(e) = live_entry(records, key, history) {
            assert forall|k: int| 0 <= k < n implies no_later(
                (#[trigger] history[k]).measured_at@,
                history[e].measured_at@,
            ) by {}
        }
    }
}

/// A record judges its own loopback's pair and the pairs that it reaches,
/// where it judged any latency; it judges no other pair.
pub proof fn a_record_judges_what_it_reaches(r: JudgedRecord, key: Seq<char>)
    ensures
        r.judged is None ==> !judges(r, key),
        r.judged is Some && r.loopback_key@ == key ==> judges(r, key),
        r.judged is Some ==> forall|k: int|
            0 <= k < r.reach@.len() ==> judges(r, (#[trigger] r.reach@[k])@),
        judges(r, key) ==> r.loopback_key@ == key || exists|k: int|
            0 <= k < r.reach@.len() && (#[trigger] r.reach@[k])@ == key,
{
}

/// Entries share conditions regardless of their ports: what counts is the
/// device, the backend, the rate and the period, all four.
pub proof fn sharing_is_about_four_conditions(e: TauEntry, c: TauConditions)
    ensures
        shares(e, c) ==> e.conditions.device == c.device && e.conditions.backend@ == c.backend@
            && e.conditions.sample_rate == c.sample_rate && e.conditions.period_size
            == c.period_size,
        !shares(e, c) ==> e.conditions.device != c.device || e.conditions.backend@ != c.backend@
            || e.conditions.sample_rate != c.sample_rate || e.conditions.period_size
            != c.period_size,
{
}

} // verus!
