//! The voltage and level calibrations: `calibrate`, `calibrate_spl` and the
//! replies to their prompts.
//!
//! A prompt is answered with a reading, skipped, or told to clear. A prompt
//! that is not answered counts as skipped, and a skip never writes.
use vstd::prelude::*;

use crate::calibration::Calibration;
use crate::config::{Config, ConfigV};
use crate::double::{Double, ONE};
use crate::gate::key_text;
use crate::json::{double_or_null, fields_read_back, finite_or_null, Json, JsonV, opt_text};
use crate::launch::{get_number, number_or, Launch};
use crate::plot::apply_drive_ceiling;
use crate::ports::{
    input_of, output_by_channel, port_view, resolve_input, resolve_output_by_channel, PortV,
};
use crate::settings::{ok, ok_reply};
use crate::tau::{TauEntry, TauOutcome};
use crate::text::texts;
use crate::wire::{
    bool_field, double_field, get_bool, get_double, get_uint, refusal_reply, refuse, uint_field,
};

verus! {

/// What a `cal_reply` asks for.
#[derive(Debug, Clone, Copy, PartialEq, Eq, Structural)]
pub enum CalReply {
    /// A measured reading, in Vrms at the level that is played or captured.
    Value(Double),
    /// No reading: the stored value stands.
    Skip,
    /// The stored value is to be erased.
    Clear,
}

impl CalReply {
    /// The reading, if one was given.
    pub open spec fn reading(self) -> Option<Double> {
        match self {
            CalReply::Value(v) => Some(v),
            _ => None,
        }
    }

    /// The reading, if one was given.
    pub fn value(self) -> (r: Option<Double>)
        ensures
            r == self.reading(),
    {
        match self {
            CalReply::Value(v) => Some(v),
            CalReply::Skip => None,
            CalReply::Clear => None,
        }
    }
}

/// What a request asks for: to clear only by name, else to take its reading,
/// else to skip.
pub open spec fn reply_of(cmd: JsonV) -> CalReply {
    if bool_field(cmd, "clear"@) == Some(true) {
        CalReply::Clear
    } else {
        match double_field(cmd, "vrms"@) {
            Some(v) => CalReply::Value(v),
            None => CalReply::Skip,
        }
    }
}

/// `cal_reply`: what to hand to a waiting prompt, and the reply.
pub fn cal_reply(cmd: &Json) -> (r: (CalReply, Json))
    ensures
        r.0 == reply_of(cmd@),
        r.1@ == ok_reply(),
{
    let clear: bool = match get_bool(cmd, "clear") {
        Some(b) => b,
        None => false,
    };
    let reply = if clear {
        CalReply::Clear
    } else {
        match get_double(cmd, "vrms") {
            Some(v) => CalReply::Value(v),
            None => CalReply::Skip,
        }
    };
    (reply, ok())
}

/// One poll of a waiting prompt.
pub open spec fn poll_of(stopped: bool, past_deadline: bool, received: Option<CalReply>) -> Option<
    CalReply,
> {
    if stopped || past_deadline {
        Some(CalReply::Skip)
    } else {
        received
    }
}

/// One poll of a waiting prompt: its answer, or none to go on waiting. A stop
/// or a timeout answers with a skip, even where a reply has come.
pub fn wait_cal_reply(stopped: bool, past_deadline: bool, received: Option<CalReply>) -> (r: Option<
    CalReply,
>)
    ensures
        r == poll_of(stopped, past_deadline, received),
{
    if stopped || past_deadline {
        Some(CalReply::Skip)
    } else {
        received
    }
}

/// How a stored value came to be what it is.
#[derive(Debug, Clone, Copy, PartialEq, Eq, Structural)]
pub enum FieldState {
    Measured,
    Unchanged,
    Absent,
}

impl FieldState {
    pub open spec fn tag_text(self) -> Seq<char> {
        match self {
            FieldState::Measured => "measured"@,
            FieldState::Unchanged => "unchanged"@,
            FieldState::Absent => "absent"@,
        }
    }

    pub fn tag(self) -> (r: &'static str)
        ensures
            r@ == self.tag_text(),
    {
        match self {
            FieldState::Measured => "measured",
            FieldState::Unchanged => "unchanged",
            FieldState::Absent => "absent",
        }
    }
}

/// The stored value after a reply. `scaled` is the reading brought to
/// 0 dBFS.
pub open spec fn value_after(
    stored: Option<Double>,
    reply: CalReply,
    scaled: Double,
) -> Option<Double> {
    match reply {
        CalReply::Value(_) => Some(scaled),
        CalReply::Clear => None,
        CalReply::Skip => stored,
    }
}

/// The state of the stored value after a reply.
pub open spec fn state_after(stored: Option<Double>, reply: CalReply) -> FieldState {
    match reply {
        CalReply::Value(_) => FieldState::Measured,
        CalReply::Clear => FieldState::Absent,
        CalReply::Skip => if stored is Some {
            FieldState::Unchanged
        } else {
            FieldState::Absent
        },
    }
}

/// Applies a prompt's reply to a stored value.
pub fn apply_cal_reading(field: &mut Option<Double>, reply: CalReply, scaled: Double) -> (r:
    FieldState)
    ensures
        *final(field) == value_after(*old(field), reply, scaled),
        r == state_after(*old(field), reply),
{
    match reply {
        CalReply::Value(_) => {
            *field = Some(scaled);
            FieldState::Measured
        },
        CalReply::Clear => {
            *field = None;
            FieldState::Absent
        },
        CalReply::Skip => {
            if field.is_some() {
                FieldState::Unchanged
            } else {
                FieldState::Absent
            }
        },
    }
}

/// The channel of a request, its low 32 bits, or the configured one.
pub open spec fn channel_or(cmd: JsonV, key: Seq<char>, default: u32) -> u32 {
    match uint_field(cmd, key) {
        Some(n) => (n % 0x1_0000_0000) as u32,
        None => default,
    }
}

fn get_channel(cmd: &Json, key: &str, default: u32) -> (r: u32)
    ensures
        r == channel_or(cmd@, key@, default),
{
    match get_uint(cmd, key) {
        Some(n) => (n % 0x1_0000_0000) as u32,
        None => default,
    }
}

/// The pair of channels that a calibration command is about.
pub fn channels_from(cmd: &Json, cfg: &Config) -> (r: (u32, u32))
    ensures
        r.0 == channel_or(cmd@, "output_channel"@, cfg.output_channel),
        r.1 == channel_or(cmd@, "input_channel"@, cfg.input_channel),
{
    (
        get_channel(cmd, "output_channel", cfg.output_channel),
        get_channel(cmd, "input_channel", cfg.input_channel),
    )
}

/// The capture port of a channel, whatever sticky port is configured.
pub open spec fn input_by_channel(cfg: ConfigV, capture: Seq<Seq<char>>, in_ch: u32) -> PortV {
    input_of(ConfigV { input_channel: in_ch, input_port: None, ..cfg }, capture)
}

/// The capture port of a channel, whatever sticky port is configured.
pub fn resolve_input_by_channel(cfg: &Config, capture: &Vec<String>, in_ch: u32) -> (r: Result<
    String,
    String,
>)
    ensures
        port_view(r) == input_by_channel(cfg@, texts(capture@), in_ch),
{
    let mut cfg_in = cfg.copy();
    cfg_in.input_channel = in_ch;
    cfg_in.input_port = None;
    assert(cfg_in@ =~= ConfigV { input_channel: in_ch, input_port: None, ..cfg@ });
    resolve_input(&cfg_in, capture)
}

/// An accepted voltage calibration. The pair of channels keys the entry and
/// decides the ports.
#[derive(Debug)]
pub struct CalibratePlan {
    pub out_ch: u32,
    pub in_ch: u32,
    /// The level of the reference tone.
    pub ref_dbfs: Double,
    pub out_port: String,
    pub in_port: String,
}

impl CalibratePlan {
    /// The plan is what the request asks for, with the configured channels and
    /// the session's ceiling for what it does not name.
    pub open spec fn answers(&self, l: &Launch, cmd: JsonV) -> bool {
        &&& self.out_ch == channel_or(cmd, "output_channel"@, l.cfg.output_channel)
        &&& self.in_ch == channel_or(cmd, "input_channel"@, l.cfg.input_channel)
        &&& self.ref_dbfs == number_or(cmd, "ref_dbfs"@, l.cfg.drive_max_dbfs).lesser(
            l.cfg.drive_max_dbfs,
        )
        &&& output_by_channel(l.cfg@, texts(l.playback@), self.out_ch) == Ok::<
            Seq<char>,
            Seq<char>,
        >(self.out_port@)
        &&& input_by_channel(l.cfg@, texts(l.capture@), self.in_ch) == Ok::<Seq<char>, Seq<char>>(
            self.in_port@,
        )
    }
}

/// The first reason to refuse `calibrate`: what blocks it, the output, the
/// input.
pub open spec fn calibrate_refusal(l: &Launch, cmd: JsonV) -> Option<JsonV> {
    match l.blocked("calibrate"@) {
        Some(e) => Some(refusal_reply(e)),
        None => match output_by_channel(
            l.cfg@,
            texts(l.playback@),
            channel_or(cmd, "output_channel"@, l.cfg.output_channel),
        ) {
            Err(e) => Some(refusal_reply(e)),
            Ok(_) => match input_by_channel(
                l.cfg@,
                texts(l.capture@),
                channel_or(cmd, "input_channel"@, l.cfg.input_channel),
            ) {
                Err(e) => Some(refusal_reply(e)),
                Ok(_) => None,
            },
        },
    }
}

/// `calibrate`, up to the start of its worker. The tone plays at the session's
/// ceiling unless a lower level is asked for.
pub fn calibrate(l: &Launch, cmd: &Json) -> (r: Result<CalibratePlan, Json>)
    ensures
        match r {
            Err(e) => calibrate_refusal(l, cmd@) == Some(e@),
            Ok(p) => {
                &&& calibrate_refusal(l, cmd@) is None
                &&& p.answers(l, cmd@)
            },
        },
{
    match l.check("calibrate") {
        Some(e) => return Err(refuse(e.as_str())),
        None => {},
    }
    let (out_ch, in_ch) = channels_from(cmd, l.cfg);
    let wanted: Double = get_number(cmd, "ref_dbfs", l.cfg.drive_max_dbfs);
    let ref_dbfs: Double = apply_drive_ceiling(l.cfg.drive_max_dbfs, wanted);
    let out_port = match resolve_output_by_channel(l.cfg, l.playback, out_ch) {
        Ok(p) => p,
        Err(e) => return Err(refuse(e.as_str())),
    };
    let in_port = match resolve_input_by_channel(l.cfg, l.capture, in_ch) {
        Ok(p) => p,
        Err(e) => return Err(refuse(e.as_str())),
    };
    Ok(CalibratePlan { out_ch, in_ch, ref_dbfs, out_port, in_port })
}

/// The reply to an accepted voltage calibration.
pub fn calibrate_started(plan: &CalibratePlan) -> (r: Json)
    ensures
        r@ == ok_reply().with("ref_dbfs"@, finite_or_null(plan.ref_dbfs)),
{
    ok().with("ref_dbfs", Json::float(plan.ref_dbfs))
}

/// The prompt for the output voltage.
pub open spec fn output_prompt_of(
    ref_dbfs: Double,
    shown: Seq<char>,
    dmm_vrms: Option<Double>,
) -> JsonV {
    JsonV::obj().with("step"@, JsonV::Uint(1)).with(
        "text"@,
        JsonV::Str(
            "Output cal \u{2014} measure DAC output Vrms with DMM (1 kHz @ "@ + shown
                + " dBFS). Enter reading, or press Enter to keep the stored value."@,
        ),
    ).with("dmm_vrms"@, double_or_null(dmm_vrms)).with("ref_dbfs"@, finite_or_null(ref_dbfs))
}

/// The prompt for the output voltage. `shown` is the level to one decimal.
pub fn output_prompt(ref_dbfs: Double, shown: &str, dmm_vrms: Option<Double>) -> (r: Json)
    ensures
        r@ == output_prompt_of(ref_dbfs, shown@, dmm_vrms),
{
    let text = "Output cal \u{2014} measure DAC output Vrms with DMM (1 kHz @ ".to_owned().concat(
        shown,
    ).concat(" dBFS). Enter reading, or press Enter to keep the stored value.");
    Json::obj().with("step", Json::Uint(1)).with("text", Json::string(text.as_str())).with(
        "dmm_vrms",
        Json::opt_float(dmm_vrms),
    ).with("ref_dbfs", Json::float(ref_dbfs))
}

/// Below this captured level, -80 dBFS, the input counts as silent.
pub const SILENT_INPUT: u64 = 0xC054_0000_0000_0000;

/// How far a capture may lie from that of a unity-gain loop, 2 dB.
pub const LOOPBACK_TOLERANCE: u64 = 0x4000_0000_0000_0000;

/// The level that an input reading is scaled from.
pub open spec fn scaled_from(captured_dbfs: Double, ref_dbfs: Double) -> Double {
    if (Double { bits: SILENT_INPUT }).below(captured_dbfs) {
        captured_dbfs
    } else {
        ref_dbfs
    }
}

/// The level that an input reading is scaled from: the captured one, or that
/// of the tone where the input is silent.
pub fn input_level(captured_dbfs: Double, ref_dbfs: Double) -> (r: Double)
    ensures
        r == scaled_from(captured_dbfs, ref_dbfs),
{
    if Double::new(SILENT_INPUT).lt(captured_dbfs) {
        captured_dbfs
    } else {
        ref_dbfs
    }
}

/// Whether a capture is that of a unity-gain loop. `deviation_db` is how far
/// the captured level lies from that of one, without sign.
pub open spec fn looped(deviation_db: Double) -> bool {
    deviation_db.at_most(Double { bits: LOOPBACK_TOLERANCE })
}

/// The prefilled input reading: the meter's, or on a loop that of the output.
pub open spec fn prefill(
    meter: Option<Double>,
    deviation_db: Double,
    out_reply: CalReply,
) -> Option<Double> {
    match meter {
        Some(v) => Some(v),
        None => if looped(deviation_db) {
            out_reply.reading()
        } else {
            None
        },
    }
}

/// The text of the input prompt.
pub open spec fn input_prompt_text(deviation_db: Double, shown: Seq<char>) -> Seq<char> {
    if looped(deviation_db) {
        "Input cal \u{2014} loopback detected ("@ + shown
            + " dBFS captured). Press Enter to reuse the output reading, or override (q to cancel)."@
    } else {
        "Input cal \u{2014} measure ADC input Vrms with DMM (captured "@ + shown
            + " dBFS). Enter reading, or press Enter to keep the stored value."@
    }
}

/// The prompt for the input voltage.
pub open spec fn input_prompt_of(
    captured_dbfs: Double,
    shown: Seq<char>,
    deviation_db: Double,
    meter: Option<Double>,
    out_reply: CalReply,
) -> JsonV {
    JsonV::obj().with("step"@, JsonV::Uint(2)).with(
        "text"@,
        JsonV::Str(input_prompt_text(deviation_db, shown)),
    ).with("dmm_vrms"@, double_or_null(prefill(meter, deviation_db, out_reply))).with(
        "captured_dbfs"@,
        finite_or_null(captured_dbfs),
    ).with("loopback"@, JsonV::Bool(looped(deviation_db)))
}

/// The prompt for the input voltage. `shown` is the captured level to one
/// decimal.
pub fn input_prompt(
    captured_dbfs: Double,
    shown: &str,
    deviation_db: Double,
    meter: Option<Double>,
    out_reply: CalReply,
) -> (r: Json)
    ensures
        r@ == input_prompt_of(captured_dbfs, shown@, deviation_db, meter, out_reply),
{
    let loopback: bool = deviation_db.le(Double::new(LOOPBACK_TOLERANCE));
    let dmm_vrms: Option<Double> = match meter {
        Some(v) => Some(v),
        None => if loopback {
            out_reply.value()
        } else {
            None
        },
    };
    let text = if loopback {
        "Input cal \u{2014} loopback detected (".to_owned().concat(shown).concat(
            " dBFS captured). Press Enter to reuse the output reading, or override (q to cancel).",
        )
    } else {
        "Input cal \u{2014} measure ADC input Vrms with DMM (captured ".to_owned().concat(
            shown,
        ).concat(" dBFS). Enter reading, or press Enter to keep the stored value.")
    };
    Json::obj().with("step", Json::Uint(2)).with("text", Json::string(text.as_str())).with(
        "dmm_vrms",
        Json::opt_float(dmm_vrms),
    ).with("captured_dbfs", Json::float(captured_dbfs)).with("loopback", Json::Bool(loopback))
}

/// Where a voltage calibration stands.
#[derive(Debug, Clone, Copy, PartialEq, Eq, Structural)]
pub enum CalStage {
    /// The output prompt is out.
    Output,
    /// The output prompt was answered so; the input prompt is out.
    Input { out_reply: CalReply },
    /// Both prompts were answered.
    Answered { out_reply: CalReply, in_reply: CalReply },
    /// Stopped at a prompt. Nothing is saved.
    Cancelled,
}

impl CalStage {
    /// The stage after the answer to a prompt. A stop at either prompt
    /// cancels the whole run.
    pub open spec fn after(self, reply: CalReply, stopped: bool) -> CalStage {
        match self {
            CalStage::Output => if stopped {
                CalStage::Cancelled
            } else {
                CalStage::Input { out_reply: reply }
            },
            CalStage::Input { out_reply } => if stopped {
                CalStage::Cancelled
            } else {
                CalStage::Answered { out_reply, in_reply: reply }
            },
            _ => self,
        }
    }

    /// The stage after the answer to a prompt.
    pub fn answered(self, reply: CalReply, stopped: bool) -> (r: CalStage)
        ensures
            r == self.after(reply, stopped),
    {
        match self {
            CalStage::Output => if stopped {
                CalStage::Cancelled
            } else {
                CalStage::Input { out_reply: reply }
            },
            CalStage::Input { out_reply } => if stopped {
                CalStage::Cancelled
            } else {
                CalStage::Answered { out_reply, in_reply: reply }
            },
            CalStage::Answered { out_reply, in_reply } => CalStage::Answered {
                out_reply,
                in_reply,
            },
            CalStage::Cancelled => CalStage::Cancelled,
        }
    }
}

/// What a run brings to the stored entry.
#[derive(Debug)]
pub struct CalReadings {
    pub out_reply: CalReply,
    pub in_reply: CalReply,
    /// The output reading brought to 0 dBFS.
    pub out_scaled: Double,
    /// The input reading brought to 0 dBFS.
    pub in_scaled: Double,
    pub ref_dbfs: Double,
    pub tau: Option<TauEntry>,
}

/// The state of each voltage field after a run.
#[derive(Debug, Clone, Copy)]
pub struct CalStates {
    pub output: FieldState,
    pub input: FieldState,
}

/// What a run makes of the stored entry, and the state of its two voltages.
pub open spec fn saved(
    before: Calibration,
    r: CalReadings,
    after: Calibration,
    states: CalStates,
) -> bool {
    &&& states.output == state_after(before.vrms_at_0dbfs_out, r.out_reply)
    &&& states.input == state_after(before.vrms_at_0dbfs_in, r.in_reply)
    &&& after.vrms_at_0dbfs_out == value_after(
        before.vrms_at_0dbfs_out,
        r.out_reply,
        r.out_scaled,
    )
    &&& after.vrms_at_0dbfs_in == value_after(before.vrms_at_0dbfs_in, r.in_reply, r.in_scaled)
    &&& after.ref_dbfs == (if r.out_reply is Value || r.in_reply is Value {
        r.ref_dbfs
    } else {
        before.ref_dbfs
    })
    &&& after.tau_history@ == (match r.tau {
        Some(e) => before.tau_history@.push(e),
        None => before.tau_history@,
    })
    &&& after.output_channel == before.output_channel
    &&& after.input_channel == before.input_channel
    &&& after.ref_freq == before.ref_freq
    &&& after.mic_sensitivity_dbfs_at_94db_spl == before.mic_sensitivity_dbfs_at_94db_spl
    &&& after.mic_response == before.mic_response
}

/// Applies a run to the stored entry. The reference level moves only where a
/// reading did; a latency is added to the history; the rest of the entry is
/// kept.
pub fn save_readings(cal: &mut Calibration, r: CalReadings) -> (states: CalStates)
    ensures
        saved(*old(cal), r, *final(cal), states),
{
    let mut out_field: Option<Double> = cal.vrms_at_0dbfs_out;
    let mut in_field: Option<Double> = cal.vrms_at_0dbfs_in;
    let output = apply_cal_reading(&mut out_field, r.out_reply, r.out_scaled);
    let input = apply_cal_reading(&mut in_field, r.in_reply, r.in_scaled);
    cal.vrms_at_0dbfs_out = out_field;
    cal.vrms_at_0dbfs_in = in_field;
    if output == FieldState::Measured || input == FieldState::Measured {
        cal.ref_dbfs = r.ref_dbfs;
    }
    match r.tau {
        Some(e) => cal.tau_history.push(e),
        None => {},
    }
    CalStates { output, input }
}

/// The rate and period that a frame names: those that the latency was
/// measured under, or else those of the voltage run.
pub open spec fn tau_conditions(
    outcome: TauOutcome,
    sample_rate: u32,
    period_size: Option<u32>,
) -> (u32, Option<u32>) {
    match outcome.ran_under() {
        Some(c) => (c.sample_rate, c.period_size),
        None => (sample_rate, period_size),
    }
}

/// A period as JSON.
pub open spec fn period_json(p: Option<u32>) -> JsonV {
    match p {
        Some(n) => JsonV::Uint(n as u64),
        None => JsonV::Null,
    }
}

/// The `cal_done` frame of a voltage calibration.
pub open spec fn cal_done_of(
    cal: &Calibration,
    states: CalStates,
    outcome: TauOutcome,
    sample_rate: u32,
    period_size: Option<u32>,
    plan: &CalibratePlan,
) -> JsonV {
    outcome.frame_of(
        JsonV::obj().with(
            "key"@,
            JsonV::Str(key_text(cal.output_channel, cal.input_channel)),
        ).with("vrms_at_0dbfs_out"@, double_or_null(cal.vrms_at_0dbfs_out)).with(
            "vrms_at_0dbfs_in"@,
            double_or_null(cal.vrms_at_0dbfs_in),
        ).with("out_state"@, JsonV::Str(states.output.tag_text())).with(
            "in_state"@,
            JsonV::Str(states.input.tag_text()),
        ).with(
            "tau_sample_rate"@,
            JsonV::Uint(tau_conditions(outcome, sample_rate, period_size).0 as u64),
        ).with(
            "tau_period_size"@,
            period_json(tau_conditions(outcome, sample_rate, period_size).1),
        ).with("input_port"@, JsonV::Str(plan.in_port@)).with(
            "output_port"@,
            JsonV::Str(plan.out_port@),
        ),
    )
}

/// The `cal_done` frame of a voltage calibration: what is stored now, how it
/// came to be, the latency outcome, and the ports that were used.
pub fn calibrate_frame(
    cal: &Calibration,
    states: CalStates,
    outcome: &TauOutcome,
    sample_rate: u32,
    period_size: Option<u32>,
    plan: &CalibratePlan,
) -> (r: Json)
    ensures
        r@ == cal_done_of(cal, states, *outcome, sample_rate, period_size, plan),
{
    let (sr, period) = match outcome.conditions() {
        Some(c) => (c.sample_rate, c.period_size),
        None => (sample_rate, period_size),
    };
    let period_value = match period {
        Some(n) => Json::Uint(n as u64),
        None => Json::Null,
    };
    let frame = Json::obj().with("key", Json::string(cal.key().as_str())).with(
        "vrms_at_0dbfs_out",
        Json::opt_float(cal.vrms_at_0dbfs_out),
    ).with("vrms_at_0dbfs_in", Json::opt_float(cal.vrms_at_0dbfs_in)).with(
        "out_state",
        Json::string(states.output.tag()),
    ).with("in_state", Json::string(states.input.tag())).with(
        "tau_sample_rate",
        Json::Uint(sr as u64),
    ).with("tau_period_size", period_value).with(
        "input_port",
        Json::string(plan.in_port.as_str()),
    ).with("output_port", Json::string(plan.out_port.as_str()));
    outcome.write_frame(frame)
}

/// The frames that end a calibration.
pub struct CalFinish {
    /// The `cal_done` frame.
    pub cal_done: Json,
    /// The topic of the last frame.
    pub topic: &'static str,
    pub last: Json,
}

impl CalFinish {
    /// The frames, and the topic of the last one.
    pub open spec fn frames(&self) -> (JsonV, Seq<char>, JsonV) {
        (self.cal_done@, self.topic@, self.last@)
    }
}

/// The frames that end a calibration, and the topic of the last one.
pub open spec fn finish_of(
    cmd: Seq<char>,
    key: Seq<char>,
    cal_done: JsonV,
    save_err: Option<Seq<char>>,
) -> (JsonV, Seq<char>, JsonV) {
    match save_err {
        Some(e) => (
            cal_done.with("error"@, JsonV::Str(e)),
            "error"@,
            JsonV::obj().with("cmd"@, JsonV::Str(cmd)).with(
                "message"@,
                JsonV::Str("save failed: "@ + e),
            ),
        ),
        None => (
            cal_done,
            "done"@,
            JsonV::obj().with("cmd"@, JsonV::Str(cmd)).with("key"@, JsonV::Str(key)),
        ),
    }
}

/// The frames that end a calibration: `cal_done`, with the error of a failed
/// save, then `error` or `done`.
pub fn finish_cal(cmd: &str, key: &str, cal_done: Json, save_err: &Option<String>) -> (r: CalFinish)
    ensures
        r.frames() == finish_of(cmd@, key@, cal_done@, opt_text(*save_err)),
{
    match save_err {
        Some(e) => CalFinish {
            cal_done: cal_done.with("error", Json::string(e.as_str())),
            topic: "error",
            last: Json::obj().with("cmd", Json::string(cmd)).with(
                "message",
                Json::string("save failed: ".to_owned().concat(e.as_str()).as_str()),
            ),
        },
        None => CalFinish {
            cal_done,
            topic: "done",
            last: Json::obj().with("cmd", Json::string(cmd)).with("key", Json::string(key)),
        },
    }
}

/// An accepted level calibration.
#[derive(Debug)]
pub struct SplPlan {
    pub out_ch: u32,
    pub in_ch: u32,
    pub capture_s: Double,
    pub in_port: String,
}

impl SplPlan {
    /// The plan is what the request asks for, with the configured channels and
    /// one second for what it does not name.
    pub open spec fn answers(&self, l: &Launch, cmd: JsonV) -> bool {
        &&& self.out_ch == channel_or(cmd, "output_channel"@, l.cfg.output_channel)
        &&& self.in_ch == channel_or(cmd, "input_channel"@, l.cfg.input_channel)
        &&& self.capture_s == number_or(cmd, "capture_s"@, Double { bits: ONE })
        &&& input_by_channel(l.cfg@, texts(l.capture@), self.in_ch) == Ok::<Seq<char>, Seq<char>>(
            self.in_port@,
        )
    }
}

/// The first reason to refuse `calibrate_spl`: what blocks it, the engine,
/// the input.
pub open spec fn spl_refusal(l: &Launch, cmd: JsonV, engine_fault: Option<String>) -> Option<
    JsonV,
> {
    match l.blocked("calibrate_spl"@) {
        Some(e) => Some(refusal_reply(e)),
        None => match engine_fault {
            Some(e) => Some(refusal_reply(e@)),
            None => match input_by_channel(
                l.cfg@,
                texts(l.capture@),
                channel_or(cmd, "input_channel"@, l.cfg.input_channel),
            ) {
                Err(e) => Some(refusal_reply(e)),
                Ok(_) => None,
            },
        },
    }
}

/// `calibrate_spl`, up to the start of its worker. `engine_fault` is why no
/// audio engine can be made, if none can.
pub fn calibrate_spl(l: &Launch, cmd: &Json, engine_fault: &Option<String>) -> (r: Result<
    SplPlan,
    Json,
>)
    ensures
        match r {
            Err(e) => spl_refusal(l, cmd@, *engine_fault) == Some(e@),
            Ok(p) => {
                &&& spl_refusal(l, cmd@, *engine_fault) is None
                &&& p.answers(l, cmd@)
            },
        },
{
    match l.check("calibrate_spl") {
        Some(e) => return Err(refuse(e.as_str())),
        None => {},
    }
    let (out_ch, in_ch) = channels_from(cmd, l.cfg);
    let capture_s: Double = get_number(cmd, "capture_s", Double::new(ONE));
    match engine_fault {
        Some(e) => return Err(refuse(e.as_str())),
        None => {},
    }
    let in_port = match resolve_input_by_channel(l.cfg, l.capture, in_ch) {
        Ok(p) => p,
        Err(e) => return Err(refuse(e.as_str())),
    };
    Ok(SplPlan { out_ch, in_ch, capture_s, in_port })
}

/// The reply to an accepted level calibration.
pub fn spl_started(backend: &str) -> (r: Json)
    ensures
        r@ == ok_reply().with("backend"@, JsonV::Str(backend@)),
{
    ok().with("backend", Json::string(backend))
}

/// The prompt to seat the pistonphone.
pub fn spl_prompt() -> (r: Json)
    ensures
        r@ == JsonV::obj().with("step"@, JsonV::Uint(1)).with(
            "text"@,
            JsonV::Str(
                "Apply 94 dB SPL pistonphone reference, press Enter when ready (q to cancel)."@,
            ),
        ).with("kind"@, JsonV::Str("spl"@)),
{
    Json::obj().with("step", Json::Uint(1)).with(
        "text",
        Json::string("Apply 94 dB SPL pistonphone reference, press Enter when ready (q to cancel)."),
    ).with("kind", Json::string("spl"))
}

/// Stores the captured level of the reference; the rest of the entry is kept.
pub fn save_sensitivity(cal: &mut Calibration, dbfs: Double)
    ensures
        *final(cal) == (Calibration {
            mic_sensitivity_dbfs_at_94db_spl: Some(dbfs),
            ..*old(cal)
        }),
{
    cal.mic_sensitivity_dbfs_at_94db_spl = Some(dbfs);
}

/// The `cal_done` frame of a level calibration.
pub open spec fn spl_frame_of(key: Seq<char>, dbfs: Double, backend: Seq<char>) -> JsonV {
    JsonV::obj().with("key"@, JsonV::Str(key)).with(
        "mic_sensitivity_dbfs_at_94db_spl"@,
        finite_or_null(dbfs),
    ).with("kind"@, JsonV::Str("spl"@)).with("backend"@, JsonV::Str(backend))
}

/// The `cal_done` frame of a level calibration.
pub fn spl_frame(key: &str, dbfs: Double, backend: &str) -> (r: Json)
    ensures
        r@ == spl_frame_of(key@, dbfs, backend@),
{
    Json::obj().with("key", Json::string(key)).with(
        "mic_sensitivity_dbfs_at_94db_spl",
        Json::float(dbfs),
    ).with("kind", Json::string("spl")).with("backend", Json::string(backend))
}

/// A skipped prompt leaves the stored value as it was, and a stored value is
/// erased by a reply that asks for it and by no other.
pub proof fn only_a_clear_erases(stored: Option<Double>, reply: CalReply, scaled: Double)
    ensures
        reply is Skip ==> value_after(stored, reply, scaled) == stored,
        stored is Some ==> (value_after(stored, reply, scaled) is None <==> reply is Clear),
        state_after(stored, reply) == FieldState::Measured <==> reply is Value,
        state_after(stored, reply) == FieldState::Absent <==> value_after(stored, reply, scaled)
            is None,
{
}

/// A request erases only where it says `clear: true`; one that says nothing,
/// and a prompt that times out or is stopped, skip.
pub proof fn clearing_is_asked_for_by_name(cmd: JsonV)
    ensures
        reply_of(cmd) is Clear <==> bool_field(cmd, "clear"@) == Some(true),
        bool_field(cmd, "clear"@) != Some(true) && double_field(cmd, "vrms"@) is None
            ==> reply_of(cmd) is Skip,
{
}

/// A run stopped at either prompt never comes to be saved, whatever is
/// answered later.
pub proof fn a_stopped_run_is_cancelled(
    first: CalReply,
    second: CalReply,
    stopped_first: bool,
    stopped_second: bool,
)
    ensures
        CalStage::Output.after(first, stopped_first).after(second, stopped_second) is Answered
            <==> !stopped_first && !stopped_second,
        !stopped_first && !stopped_second ==> CalStage::Output.after(first, stopped_first).after(
            second,
            stopped_second,
        ) == (CalStage::Answered { out_reply: first, in_reply: second }),
{
}

/// A run's readings go each where it belongs: the output's reading into the
/// output's value and the input's into the input's. The reference level moves
/// with a reading and only then, a latency is added behind the earlier ones,
/// and nothing else of the entry changes.
pub proof fn readings_go_where_they_belong(
    before: Calibration,
    run: CalReadings,
    after: Calibration,
    states: CalStates,
)
    requires
        saved(before, run, after, states),
    ensures
        run.out_reply is Value ==> after.vrms_at_0dbfs_out == Some(run.out_scaled) && states.output
            == FieldState::Measured,
        run.in_reply is Value ==> after.vrms_at_0dbfs_in == Some(run.in_scaled) && states.input
            == FieldState::Measured,
        run.out_reply is Skip ==> after.vrms_at_0dbfs_out == before.vrms_at_0dbfs_out
            && states.output != FieldState::Measured,
        run.in_reply is Skip ==> after.vrms_at_0dbfs_in == before.vrms_at_0dbfs_in && states.input
            != FieldState::Measured,
        run.out_reply is Clear ==> after.vrms_at_0dbfs_out is None,
        run.in_reply is Clear ==> after.vrms_at_0dbfs_in is None,
        after.vrms_at_0dbfs_out is None <==> states.output == FieldState::Absent,
        after.vrms_at_0dbfs_in is None <==> states.input == FieldState::Absent,
        states.output == FieldState::Measured || states.input == FieldState::Measured
            ==> after.ref_dbfs == run.ref_dbfs,
        states.output != FieldState::Measured && states.input != FieldState::Measured
            ==> after.ref_dbfs == before.ref_dbfs,
        before.tau_history@.is_prefix_of(after.tau_history@),
        run.tau is None ==> after.tau_history@ == before.tau_history@,
        run.tau matches Some(e) ==> after.tau_history@.len() == before.tau_history@.len() + 1
            && after.tau_history@.last() == e,
        after.output_channel == before.output_channel,
        after.input_channel == before.input_channel,
        after.ref_freq == before.ref_freq,
        after.mic_sensitivity_dbfs_at_94db_spl == before.mic_sensitivity_dbfs_at_94db_spl,
        after.mic_response == before.mic_response,
{
    assert(after.tau_history@.subrange(0, before.tau_history@.len() as int)
        =~= before.tau_history@);
}

/// The frame of a finished calibration tells what is stored now, each value,
/// state and port under its own name, and the rate and period that the latency
/// ran under, or those of the run where it did not come so far.
pub proof fn a_calibration_is_told_by_name(
    cal: Calibration,
    states: CalStates,
    outcome: TauOutcome,
    rate: u32,
    period: Option<u32>,
    plan: CalibratePlan,
)
    ensures
        ({
            let frame = cal_done_of(&cal, states, outcome, rate, period, &plan);
            let under = outcome.ran_under();
            &&& frame.field("key"@) == Some(
                JsonV::Str(key_text(cal.output_channel, cal.input_channel)),
            )
            &&& frame.field("vrms_at_0dbfs_out"@) == Some(double_or_null(cal.vrms_at_0dbfs_out))
            &&& frame.field("vrms_at_0dbfs_in"@) == Some(double_or_null(cal.vrms_at_0dbfs_in))
            &&& frame.field("out_state"@) == Some(JsonV::Str(states.output.tag_text()))
            &&& frame.field("in_state"@) == Some(JsonV::Str(states.input.tag_text()))
            &&& frame.field("input_port"@) == Some(JsonV::Str(plan.in_port@))
            &&& frame.field("output_port"@) == Some(JsonV::Str(plan.out_port@))
            &&& frame.field("tau_state"@) == Some(JsonV::Str(outcome.state_text()))
            &&& under matches Some(c) ==> frame.field("tau_sample_rate"@) == Some(
                JsonV::Uint(c.sample_rate as u64),
            ) && (c.period_size matches Some(n) ==> frame.field("tau_period_size"@) == Some(
                JsonV::Uint(n as u64),
            )) && (c.period_size is None ==> frame.field("tau_period_size"@) == Some(JsonV::Null))
            &&& under is None ==> frame.field("tau_sample_rate"@) == Some(JsonV::Uint(rate as u64))
                && (period matches Some(n) ==> frame.field("tau_period_size"@) == Some(
                JsonV::Uint(n as u64),
            )) && (period is None ==> frame.field("tau_period_size"@) == Some(JsonV::Null))
        }),
{
    fields_read_back();
    reveal_strlit("key");
    reveal_strlit("vrms_at_0dbfs_out");
    reveal_strlit("vrms_at_0dbfs_in");
    reveal_strlit("out_state");
    reveal_strlit("in_state");
    reveal_strlit("tau_sample_rate");
    reveal_strlit("tau_period_size");
    reveal_strlit("input_port");
    reveal_strlit("output_port");
    reveal_strlit("tau_state");
    reveal_strlit("tau_s");
    reveal_strlit("tau_agreement_count");
    reveal_strlit("tau_delta_samples");
    reveal_strlit("tau_reading1_xruns");
    reveal_strlit("tau_pre_impulse_snr_db");
    reveal_strlit("tau_snr_threshold_db");
    reveal_strlit("tau_reading1_s");
    reveal_strlit("tau_reading2_s");
    reveal_strlit("tau_reading2_xruns");
    reveal_strlit("tau_periods");
    reveal_strlit("tau_error");
    assert("key"@.len() == 3);
    assert("vrms_at_0dbfs_out"@.len() == 17);
    assert("vrms_at_0dbfs_in"@.len() == 16);
    assert("out_state"@.len() == 9);
    assert("in_state"@.len() == 8);
    assert("tau_sample_rate"@.len() == 15);
    assert("tau_period_size"@.len() == 15);
    assert("input_port"@.len() == 10);
    assert("output_port"@.len() == 11);
    assert("tau_state"@.len() == 9);
    assert("tau_s"@.len() == 5);
    assert("tau_agreement_count"@.len() == 19);
    assert("tau_delta_samples"@.len() == 17);
    assert("tau_reading1_xruns"@.len() == 18);
    assert("tau_pre_impulse_snr_db"@.len() == 22);
    assert("tau_snr_threshold_db"@.len() == 20);
    assert("tau_reading1_s"@.len() == 14);
    assert("tau_reading2_s"@.len() == 14);
    assert("tau_reading2_xruns"@.len() == 18);
    assert("tau_periods"@.len() == 11);
    assert("tau_error"@.len() == 9);
    assert("vrms_at_0dbfs_out"@[0] != "tau_delta_samples"@[0]);
    assert("out_state"@[0] != "tau_state"@[0]);
    assert("out_state"@[0] != "tau_error"@[0]);
    assert("tau_state"@[4] != "tau_error"@[4]);
    assert("tau_sample_rate"@[4] != "tau_period_size"@[4]);
    assert("output_port"@[0] != "tau_periods"@[0]);
    assert("tau_reading1_xruns"@[11] != "tau_reading2_xruns"@[11]);
    assert("tau_reading1_s"@[11] != "tau_reading2_s"@[11]);
}

/// The prompts carry each number under its own name. The input prompt is
/// prefilled with what the meter reads, and on a loop, where the same voltage
/// is at both ends, with the output's reading.
pub proof fn prompts_are_told_by_name(
    tone: Double,
    captured: Double,
    shown: Seq<char>,
    deviation: Double,
    meter: Option<Double>,
    out_reply: CalReply,
)
    ensures
        ({
            let first = output_prompt_of(tone, shown, meter);
            let second = input_prompt_of(captured, shown, deviation, meter, out_reply);
            let two_db = Double { bits: 0x4000_0000_0000_0000 };
            &&& first.field("step"@) == Some(JsonV::Uint(1))
            &&& first.field("dmm_vrms"@) == Some(double_or_null(meter))
            &&& first.field("ref_dbfs"@) == Some(finite_or_null(tone))
            &&& second.field("step"@) == Some(JsonV::Uint(2))
            &&& second.field("captured_dbfs"@) == Some(finite_or_null(captured))
            &&& deviation.at_most(two_db) ==> second.field("loopback"@) == Some(JsonV::Bool(true))
            &&& !deviation.at_most(two_db) ==> second.field("loopback"@) == Some(
                JsonV::Bool(false),
            )
            &&& meter matches Some(v) ==> second.field("dmm_vrms"@) == Some(finite_or_null(v))
            &&& meter is None && deviation.at_most(two_db) ==> (out_reply matches CalReply::Value(v)
                ==> second.field("dmm_vrms"@) == Some(finite_or_null(v)))
            &&& meter is None && !(deviation.at_most(two_db) && out_reply is Value)
                ==> second.field("dmm_vrms"@) == Some(JsonV::Null)
        }),
{
    fields_read_back();
    reveal_strlit("step");
    reveal_strlit("text");
    reveal_strlit("dmm_vrms");
    reveal_strlit("ref_dbfs");
    reveal_strlit("captured_dbfs");
    reveal_strlit("loopback");
    assert("step"@.len() == 4);
    assert("text"@.len() == 4);
    assert("dmm_vrms"@.len() == 8);
    assert("ref_dbfs"@.len() == 8);
    assert("captured_dbfs"@.len() == 13);
    assert("loopback"@.len() == 8);
    assert("step"@[0] != "text"@[0]);
    assert("dmm_vrms"@[0] != "ref_dbfs"@[0]);
    assert("dmm_vrms"@[0] != "loopback"@[0]);
    assert("ref_dbfs"@[0] != "loopback"@[0]);
}

/// A reading is scaled from the level that was captured, and from the tone's
/// own where nothing was heard: at -80 dBFS and below.
pub proof fn a_silent_input_scales_from_the_tone(captured: Double, tone: Double)
    ensures
        captured.at_most(Double { bits: 0xC054_0000_0000_0000 }) || captured.nan()
            ==> scaled_from(captured, tone) == tone,
        (Double { bits: 0xC054_0000_0000_0000 }).below(captured) ==> scaled_from(captured, tone)
            == captured,
{
}

/// A prompt is answered by its reply, and skipped where it is stopped or too
/// late, even then where a reply has come; else it goes on waiting.
pub proof fn an_unanswered_prompt_is_skipped(
    stopped: bool,
    late: bool,
    received: Option<CalReply>,
)
    ensures
        stopped ==> poll_of(stopped, late, received) == Some(CalReply::Skip),
        late ==> poll_of(stopped, late, received) == Some(CalReply::Skip),
        !stopped && !late ==> poll_of(stopped, late, received) == received,
{
}

/// A calibration runs on the channels that the request names, else on the
/// configured ones, each on its own side; and at the session's ceiling unless
/// a lower level is asked for.
pub proof fn a_calibration_is_as_requested(plan: CalibratePlan, l: &Launch, cmd: JsonV)
    requires
        plan.answers(l, cmd),
    ensures
        uint_field(cmd, "output_channel"@) is None ==> plan.out_ch == l.cfg.output_channel,
        uint_field(cmd, "input_channel"@) is None ==> plan.in_ch == l.cfg.input_channel,
        uint_field(cmd, "output_channel"@) matches Some(k) ==> (k <= u32::MAX ==> plan.out_ch == k),
        uint_field(cmd, "input_channel"@) matches Some(k) ==> (k <= u32::MAX ==> plan.in_ch == k),
        double_field(cmd, "ref_dbfs"@) is None ==> plan.ref_dbfs == l.cfg.drive_max_dbfs,
        double_field(cmd, "ref_dbfs"@) matches Some(x) ==> (x.below(l.cfg.drive_max_dbfs)
            ==> plan.ref_dbfs == x),
        !l.cfg.drive_max_dbfs.nan() ==> plan.ref_dbfs.at_most(l.cfg.drive_max_dbfs),
        output_by_channel(l.cfg@, texts(l.playback@), plan.out_ch) == Ok::<Seq<char>, Seq<char>>(
            plan.out_port@,
        ),
        input_by_channel(l.cfg@, texts(l.capture@), plan.in_ch) == Ok::<Seq<char>, Seq<char>>(
            plan.in_port@,
        ),
{
}

/// The same of a level calibration: its channels, and a second of capture
/// unless another length is asked for.
pub proof fn a_level_calibration_is_as_requested(plan: SplPlan, l: &Launch, cmd: JsonV)
    requires
        plan.answers(l, cmd),
    ensures
        uint_field(cmd, "output_channel"@) is None ==> plan.out_ch == l.cfg.output_channel,
        uint_field(cmd, "input_channel"@) is None ==> plan.in_ch == l.cfg.input_channel,
        uint_field(cmd, "output_channel"@) matches Some(k) ==> (k <= u32::MAX ==> plan.out_ch == k),
        uint_field(cmd, "input_channel"@) matches Some(k) ==> (k <= u32::MAX ==> plan.in_ch == k),
        double_field(cmd, "capture_s"@) matches Some(x) ==> plan.capture_s == x,
        double_field(cmd, "capture_s"@) is None ==> plan.capture_s == (Double {
            bits: 0x3FF0_0000_0000_0000,
        }),
        input_by_channel(l.cfg@, texts(l.capture@), plan.in_ch) == Ok::<Seq<char>, Seq<char>>(
            plan.in_port@,
        ),
{
}

/// A calibration is refused for the first thing that it lacks: leave to run,
/// an output port, an input port.
pub proof fn a_calibration_without_ports_is_refused(l: &Launch, cmd: JsonV)
    ensures
        ({
            let out_ch = channel_or(cmd, "output_channel"@, l.cfg.output_channel);
            let in_ch = channel_or(cmd, "input_channel"@, l.cfg.input_channel);
            let output = output_by_channel(l.cfg@, texts(l.playback@), out_ch);
            let input = input_by_channel(l.cfg@, texts(l.capture@), in_ch);
            let refusal = calibrate_refusal(l, cmd);
            &&& refusal is None <==> l.blocked("calibrate"@) is None && output is Ok && input is Ok
            &&& l.blocked("calibrate"@) matches Some(why) ==> refusal == Some(refusal_reply(why))
            &&& l.blocked("calibrate"@) is None ==> (output matches Err(why) ==> refusal == Some(
                refusal_reply(why),
            ))
            &&& l.blocked("calibrate"@) is None && output is Ok ==> (input matches Err(why)
                ==> refusal == Some(refusal_reply(why)))
        }),
{
}

/// A level calibration is refused for the first thing that it lacks: leave to
/// run, an engine, an input port.
pub proof fn a_level_calibration_without_input_is_refused(
    l: &Launch,
    cmd: JsonV,
    fault: Option<String>,
)
    ensures
        ({
            let in_ch = channel_or(cmd, "input_channel"@, l.cfg.input_channel);
            let input = input_by_channel(l.cfg@, texts(l.capture@), in_ch);
            let refusal = spl_refusal(l, cmd, fault);
            &&& refusal is None <==> l.blocked("calibrate_spl"@) is None && fault is None && input
                is Ok
            &&& l.blocked("calibrate_spl"@) matches Some(why) ==> refusal == Some(
                refusal_reply(why),
            )
            &&& l.blocked("calibrate_spl"@) is None ==> (fault matches Some(why) ==> refusal
                == Some(refusal_reply(why@)))
            &&& l.blocked("calibrate_spl"@) is None && fault is None ==> (input matches Err(why)
                ==> refusal == Some(refusal_reply(why)))
        }),
{
}

/// A calibration that could not be saved says so twice, in its own frame and
/// in an error at the end; one that was saved ends with its key and leaves its
/// frame as it was.
pub proof fn a_failed_save_is_told(
    cmd: Seq<char>,
    key: Seq<char>,
    cal_done: JsonV,
    fault: Option<Seq<char>>,
)
    requires
        cal_done is Obj,
    ensures
        ({
            let (told, topic, last) = finish_of(cmd, key, cal_done, fault);
            &&& last.field("cmd"@) == Some(JsonV::Str(cmd))
            &&& fault is None ==> told == cal_done && topic == "done"@ && last.field("key"@)
                == Some(JsonV::Str(key)) && last.field("message"@) is None
            &&& fault matches Some(e) ==> told.field("error"@) == Some(JsonV::Str(e)) && topic
                == "error"@ && last.field("key"@) is None && last.field("message"@) == Some(
                JsonV::Str("save failed: "@ + e),
            )
        }),
{
    fields_read_back();
    reveal_strlit("cmd");
    reveal_strlit("key");
    reveal_strlit("message");
    reveal_strlit("error");
    assert("cmd"@.len() == 3);
    assert("key"@.len() == 3);
    assert("message"@.len() == 7);
    assert("error"@.len() == 5);
    assert("cmd"@[0] != "key"@[0]);
}

/// The frame of a level calibration tells the key, the level and the backend,
/// each under its own name.
pub proof fn a_level_calibration_is_told_by_name(key: Seq<char>, level: Double, backend: Seq<char>)
    ensures
        spl_frame_of(key, level, backend).field("key"@) == Some(JsonV::Str(key)),
        spl_frame_of(key, level, backend).field("mic_sensitivity_dbfs_at_94db_spl"@) == Some(
            finite_or_null(level),
        ),
        spl_frame_of(key, level, backend).field("backend"@) == Some(JsonV::Str(backend)),
        spl_frame_of(key, level, backend).field("kind"@) == Some(JsonV::Str("spl"@)),
{
    fields_read_back();
    reveal_strlit("key");
    reveal_strlit("mic_sensitivity_dbfs_at_94db_spl");
    reveal_strlit("kind");
    reveal_strlit("backend");
    assert("key"@.len() == 3);
    assert("mic_sensitivity_dbfs_at_94db_spl"@.len() == 32);
    assert("kind"@.len() == 4);
    assert("backend"@.len() == 7);
}

/// Each state has its own word.
pub proof fn states_go_by_their_words(a: FieldState, b: FieldState)
    ensures
        a.tag_text() == b.tag_text() ==> a == b,
        FieldState::Measured.tag_text() == "measured"@,
        FieldState::Absent.tag_text() == "absent"@,
{
    reveal_strlit("measured");
    reveal_strlit("unchanged");
    reveal_strlit("absent");
    assert("measured"@.len() == 8);
    assert("unchanged"@.len() == 9);
    assert("absent"@.len() == 6);
}

} // verus!
