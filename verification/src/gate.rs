//! The session check that every emitting command passes before it emits: the unit of
//! its level, the reference loopback, and the verdict on the stored scale.
use vstd::prelude::*;

use crate::checks::{
    refuses, verdict_view, LayerVerdict, LayerVerdictV, LoopbackRef, LoopbackRefV, RecordV,
    SessionCheckRecord, VerdictKind,
};
use crate::config::{Config, ConfigV};
use crate::echo::{json_text, quote_json};
use crate::json::{fields_read_back, Json, JsonV, opt_text};
use crate::ports::{ref_input_of, ref_output_of, resolve_ref_input, resolve_ref_output};
use crate::text::{
    dec, decimal, digit_char, numeral_value, numerals_denote_their_number, str_eq, texts,
};
use crate::wire::{refusal_reply, refuse};

verus! {

/// The unit that a command's level was typed in.
#[derive(Clone, Copy, Debug, PartialEq, Eq, Structural)]
pub enum LevelUnit {
    Dbfs,
    Dbu,
    Vrms,
}

/// The unit of a request: dBFS when it names none, nothing for an unknown one.
pub open spec fn unit_of(cmd: JsonV) -> Option<LevelUnit> {
    match cmd.field("level_unit"@) {
        None => Some(LevelUnit::Dbfs),
        Some(JsonV::Null) => Some(LevelUnit::Dbfs),
        Some(JsonV::Str(s)) => if s == "dbfs"@ {
            Some(LevelUnit::Dbfs)
        } else if s == "dbu"@ {
            Some(LevelUnit::Dbu)
        } else if s == "vrms"@ {
            Some(LevelUnit::Vrms)
        } else {
            None
        },
        Some(_) => None,
    }
}

/// The refusal of a unit, which quotes the field.
pub open spec fn unit_refusal(cmd: JsonV) -> JsonV {
    refusal_reply(
        "level_unit must be \"dbfs\", \"dbu\" or \"vrms\", got "@ + json_text(
            cmd.field("level_unit"@)->0,
        ),
    )
}

impl LevelUnit {
    /// The unit of a request.
    pub fn from_request(cmd: &Json) -> (r: Result<LevelUnit, Json>)
        ensures
            match r {
                Ok(u) => unit_of(cmd@) == Some(u),
                Err(e) => unit_of(cmd@) is None && e@ == unit_refusal(cmd@),
            },
    {
        let v = match cmd.get("level_unit") {
            None => return Ok(LevelUnit::Dbfs),
            Some(v) => v,
        };
        if v.is_null() {
            return Ok(LevelUnit::Dbfs);
        }
        match v.as_str() {
            Some(s) => {
                if str_eq(s, "dbfs") {
                    return Ok(LevelUnit::Dbfs);
                }
                if str_eq(s, "dbu") {
                    return Ok(LevelUnit::Dbu);
                }
                if str_eq(s, "vrms") {
                    return Ok(LevelUnit::Vrms);
                }
            },
            None => {},
        }
        Err(
            refuse(
                "level_unit must be \"dbfs\", \"dbu\" or \"vrms\", got ".to_owned().concat(
                    quote_json(v).as_str(),
                ).as_str(),
            ),
        )
    }

    /// Whether the stored scale decides what is emitted.
    pub open spec fn is_physical(self) -> bool {
        self != LevelUnit::Dbfs
    }

    pub fn physical(self) -> (r: bool)
        ensures
            r == self.is_physical(),
    {
        self != LevelUnit::Dbfs
    }

    pub open spec fn name_text(self) -> Seq<char> {
        match self {
            LevelUnit::Dbfs => "dBFS"@,
            LevelUnit::Dbu => "dBu"@,
            LevelUnit::Vrms => "Vrms"@,
        }
    }

    pub fn name(self) -> (r: &'static str)
        ensures
            r@ == self.name_text(),
    {
        match self {
            LevelUnit::Dbfs => "dBFS",
            LevelUnit::Dbu => "dBu",
            LevelUnit::Vrms => "Vrms",
        }
    }
}

/// The key of a channel pair's calibration.
pub open spec fn key_text(out_ch: u32, in_ch: u32) -> Seq<char> {
    "out"@ + dec(out_ch as nat) + "_in"@ + dec(in_ch as nat)
}

/// The key of a channel pair's calibration.
pub fn cal_key(out_ch: u32, in_ch: u32) -> (r: String)
    ensures
        r@ == key_text(out_ch, in_ch),
{
    "out".to_owned().concat(decimal(out_ch as u64).as_str()).concat("_in").concat(
        decimal(in_ch as u64).as_str(),
    )
}

/// The reference loopback, resolved to ports.
#[derive(Debug)]
pub struct Loopback {
    pub out_ch: u32,
    pub in_ch: u32,
    pub output_port: String,
    pub input_port: String,
}

#[verifier::ext_equal]
pub struct LoopbackV {
    pub out_ch: u32,
    pub in_ch: u32,
    pub output_port: Seq<char>,
    pub input_port: Seq<char>,
}

impl Loopback {
    pub open spec fn view(&self) -> LoopbackV {
        LoopbackV {
            out_ch: self.out_ch,
            in_ch: self.in_ch,
            output_port: self.output_port@,
            input_port: self.input_port@,
        }
    }

    pub fn key(&self) -> (r: String)
        ensures
            r@ == key_text(self.out_ch, self.in_ch),
    {
        cal_key(self.out_ch, self.in_ch)
    }

    /// The loopback as a record names it.
    pub fn reference(&self) -> (r: LoopbackRef)
        ensures
            r@ == (LoopbackRefV {
                key: key_text(self.out_ch, self.in_ch),
                output_port: self.output_port@,
                input_port: self.input_port@,
            }),
    {
        LoopbackRef {
            key: self.key(),
            output_port: self.output_port.clone(),
            input_port: self.input_port.clone(),
        }
    }

    pub fn copy(&self) -> (r: Loopback)
        ensures
            r@ == self@,
    {
        Loopback {
            out_ch: self.out_ch,
            in_ch: self.in_ch,
            output_port: self.output_port.clone(),
            input_port: self.input_port.clone(),
        }
    }
}

/// The playback index of the loopback: the reference output, or the main one.
pub open spec fn loopback_out(cfg: ConfigV) -> u32 {
    match cfg.reference_output_channel {
        Some(ch) => ch,
        None => cfg.output_channel,
    }
}

/// The loopback's calibration key.
pub open spec fn loopback_key_of(cfg: ConfigV) -> Option<Seq<char>> {
    match cfg.reference_channel {
        Some(in_ch) => Some(key_text(loopback_out(cfg), in_ch)),
        None => None,
    }
}

/// The loopback's calibration key from the configuration alone; nothing when
/// no reference input is configured.
pub fn loopback_key(cfg: &Config) -> (r: Option<String>)
    ensures
        opt_text(r) == loopback_key_of(cfg@),
{
    match cfg.reference_channel {
        None => None,
        Some(in_ch) => {
            let out_ch: u32 = match cfg.reference_output_channel {
                Some(ch) => ch,
                None => cfg.output_channel,
            };
            Some(cal_key(out_ch, in_ch))
        },
    }
}

/// An unresolvable loopback, with the places to look.
pub open spec fn with_check(e: Seq<char>) -> Seq<char> {
    e + "; check: `ac devices`, `ac setup reference`"@
}

/// The reference loopback: none when no reference input is configured, an
/// error when a leg has no port.
pub open spec fn loopback_of(
    cfg: ConfigV,
    playback: Seq<Seq<char>>,
    capture: Seq<Seq<char>>,
) -> Result<Option<LoopbackV>, Seq<char>> {
    match ref_input_of(cfg, capture) {
        Err(e) => Err(with_check(e)),
        Ok(None) => Ok(None),
        Ok(Some(input_port)) => match ref_output_of(cfg, playback) {
            Err(e) => Err(with_check(e)),
            Ok(output_port) => Ok(
                Some(
                    LoopbackV {
                        out_ch: loopback_out(cfg),
                        in_ch: cfg.reference_channel->0,
                        output_port,
                        input_port,
                    },
                ),
            ),
        },
    }
}

/// What a resolution of the loopback returns.
pub open spec fn loopback_view(r: Result<Option<Loopback>, String>) -> Result<
    Option<LoopbackV>,
    Seq<char>,
> {
    match r {
        Ok(Some(l)) => Ok(Some(l@)),
        Ok(None) => Ok(None),
        Err(e) => Err(e@),
    }
}

/// The reference loopback, resolved.
pub fn configured_loopback(cfg: &Config, playback: &Vec<String>, capture: &Vec<String>) -> (r:
    Result<Option<Loopback>, String>)
    ensures
        loopback_view(r) == loopback_of(cfg@, texts(playback@), texts(capture@)),
{
    let input_port = match resolve_ref_input(cfg, capture) {
        Err(e) => return Err(e.concat("; check: `ac devices`, `ac setup reference`")),
        Ok(None) => return Ok(None),
        Ok(Some(p)) => p,
    };
    let output_port = match resolve_ref_output(cfg, playback) {
        Err(e) => return Err(e.concat("; check: `ac devices`, `ac setup reference`")),
        Ok(p) => p,
    };
    let in_ch: u32 = match cfg.reference_channel {
        Some(ch) => ch,
        None => 0,
    };
    Ok(
        Some(
            Loopback {
                out_ch: match cfg.reference_output_channel {
                    Some(ch) => ch,
                    None => cfg.output_channel,
                },
                in_ch,
                output_port,
                input_port,
            },
        ),
    )
}

/// The reason without a loopback, with the places to look.
pub const NO_LOOPBACK: &'static str =
    "no reference loopback configured; check: `ac setup reference`, `ac setup reference-output`";

/// The error for a backend that cannot be had.
pub open spec fn backend_unavailable(required: Seq<char>) -> Seq<char> {
    "audio backend unavailable \u{2014} required "@ + required + "; measurement not started"@
}

/// The backend that a configuration selects, or the error that names the
/// required one.
pub fn selected_backend(required: &str, selected: &Option<String>) -> (r: Result<String, String>)
    ensures
        match (selected, r) {
            (Some(a), Ok(b)) => b@ == a@,
            (None, Err(e)) => e@ == backend_unavailable(required@),
            _ => false,
        },
{
    match selected {
        Some(b) => Ok(b.clone()),
        None => Err(
            "audio backend unavailable \u{2014} required ".to_owned().concat(required).concat(
                "; measurement not started",
            ),
        ),
    }
}

/// The command pair's stored calibration, as far as the session check reads it.
#[derive(Debug)]
pub struct PairCal {
    pub key: String,
    pub has_voltage: bool,
}

/// The command pair's calibration for a command that loads none otherwise. An
/// unreadable store refuses only a level in a physical unit: there alone the
/// scale decides what is emitted.
pub fn gate_pair_cal(loaded: Result<Option<PairCal>, String>, level_unit: LevelUnit) -> (r: Result<
    Option<PairCal>,
    Json,
>)
    ensures
        match (loaded, r) {
            (Ok(a), Ok(b)) => a == b,
            (Err(msg), Err(e)) => level_unit.is_physical() && e@ == refusal_reply(msg@),
            (Err(_), Ok(b)) => !level_unit.is_physical() && b is None,
            (Ok(_), Err(_)) => false,
        },
{
    match loaded {
        Ok(cal) => Ok(cal),
        Err(msg) => if level_unit.physical() {
            Err(refuse(msg.as_str()))
        } else {
            Ok(None)
        },
    }
}

/// A command's session check, planned at launch.
pub struct Gate {
    pub cmd: String,
    pub pair: Option<PairCal>,
    pub level_unit: LevelUnit,
    /// The loopback that the voltage probe runs on, or why it does not run.
    pub probe: Result<Loopback, String>,
    /// The loopback of a same-capture latency verdict.
    pub tau_loopback: Option<Loopback>,
}

/// Whether a pair stores a voltage scale.
pub open spec fn stores_voltage(pair: Option<PairCal>) -> bool {
    match pair {
        Some(p) => p.has_voltage,
        None => false,
    }
}

/// Whether the check runs, and on what.
pub open spec fn probe_of(
    loopback: Result<Option<LoopbackV>, Seq<char>>,
    needs_voltage: bool,
    uses_tau: bool,
) -> Result<LoopbackV, Seq<char>> {
    if !needs_voltage && !uses_tau {
        Err("no stored voltage scale in use"@)
    } else {
        match loopback {
            Ok(None) => Err(NO_LOOPBACK@),
            Err(e) => Err(e),
            Ok(Some(l)) => if needs_voltage {
                Ok(l)
            } else {
                Err("no stored voltage scale in use"@)
            },
        }
    }
}

/// The reply fields that say whether a check will be published.
pub open spec fn check_fields(
    reply: JsonV,
    probe: Result<LoopbackV, Seq<char>>,
    tau: bool,
) -> JsonV {
    match probe {
        Ok(_) => reply.with("session_check"@, JsonV::Str("pending"@)),
        Err(reason) => if tau {
            reply.with("session_check"@, JsonV::Str("pending"@))
        } else {
            reply.with("session_check"@, JsonV::Str("not_run"@)).with(
                "session_check_reason"@,
                JsonV::Str(reason),
            )
        },
    }
}

/// What a session check decides once its probe, if any, has run.
pub struct GateDecision {
    /// The pair's voltage verdict; none when the pair stores no scale.
    pub voltage: Option<LayerVerdict>,
    /// The `session_check` frame to publish, if any.
    pub frame: Option<Json>,
    /// The error frame of a refused command, which must emit nothing.
    pub refusal: Option<Json>,
    /// The stored voltage scale is withheld from the command.
    pub withhold_voltage: bool,
}

impl Gate {
    /// What the probe is planned as.
    pub open spec fn probe_view(&self) -> Result<LoopbackV, Seq<char>> {
        match self.probe {
            Ok(l) => Ok(l@),
            Err(e) => Err(e@),
        }
    }

    /// Decide at launch whether the check runs. A missing loopback is the
    /// reason whenever a layer is consumed; a latency verdict needs a loopback
    /// but no probe.
    pub fn plan(
        cfg: &Config,
        playback: &Vec<String>,
        capture: &Vec<String>,
        cmd: &str,
        pair: Option<PairCal>,
        level_unit: LevelUnit,
        uses_tau: bool,
    ) -> (r: Gate)
        ensures
            r.cmd@ == cmd@,
            r.pair == pair,
            r.level_unit == level_unit,
            r.probe_view() == probe_of(
                loopback_of(cfg@, texts(playback@), texts(capture@)),
                stores_voltage(pair) || level_unit.is_physical(),
                uses_tau,
            ),
            match (r.tau_loopback, loopback_of(cfg@, texts(playback@), texts(capture@))) {
                (Some(l), Ok(Some(v))) => uses_tau && l@ == v,
                (Some(_), _) => false,
                (None, Ok(Some(_))) => !uses_tau,
                (None, _) => true,
            },
    {
        let loopback = configured_loopback(cfg, playback, capture);
        let has_voltage: bool = match &pair {
            Some(p) => p.has_voltage,
            None => false,
        };
        let needs_voltage: bool = has_voltage || level_unit.physical();
        let probe: Result<Loopback, String> = if !needs_voltage && !uses_tau {
            Err("no stored voltage scale in use".to_owned())
        } else {
            match &loopback {
                Ok(None) => Err(NO_LOOPBACK.to_owned()),
                Err(e) => Err(e.clone()),
                Ok(Some(l)) => if needs_voltage {
                    Ok(l.copy())
                } else {
                    Err("no stored voltage scale in use".to_owned())
                },
            }
        };
        let tau_loopback: Option<Loopback> = if uses_tau {
            match loopback {
                Ok(Some(l)) => Some(l),
                _ => None,
            }
        } else {
            None
        };
        Gate { cmd: cmd.to_owned(), pair, level_unit, probe, tau_loopback }
    }

    /// Whether a `session_check` frame will be published.
    pub fn pending(&self) -> (r: bool)
        ensures
            r == (self.probe is Ok || self.tau_loopback is Some),
    {
        self.probe.is_ok() || self.tau_loopback.is_some()
    }

    /// Say in a command's reply whether a check will be published, or why not.
    pub fn write_reply(&self, reply: Json) -> (r: Json)
        ensures
            r@ == check_fields(reply@, self.probe_view(), self.tau_loopback is Some),
    {
        if self.pending() {
            return reply.with("session_check", Json::string("pending"));
        }
        let r = reply.with("session_check", Json::string("not_run"));
        match &self.probe {
            Ok(_) => r,
            Err(reason) => r.with("session_check_reason", Json::string(reason.as_str())),
        }
    }

    /// The pair's key, if it has a calibration.
    pub open spec fn pair_key(&self) -> Option<Seq<char>> {
        match self.pair {
            Some(p) => Some(p.key@),
            None => None,
        }
    }

    /// The verdict that the command applies: what a probe of its own pair
    /// found, unless that decided nothing and an earlier refusal still stands.
    pub open spec fn applied(
        &self,
        fresh: Option<RecordV>,
        effective: LayerVerdictV,
    ) -> Option<LayerVerdictV> {
        if !stores_voltage(self.pair) {
            None
        } else {
            match fresh {
                Some(rec) => match rec.voltage {
                    Some(v) => if Some(rec.loopback.key) == self.pair_key() && (v.kind
                        != VerdictKind::Unverified || effective.kind != VerdictKind::Refused) {
                        Some(v)
                    } else {
                        Some(effective)
                    },
                    None => Some(effective),
                },
                None => Some(effective),
            }
        }
    }

    /// The error frame of a refused level.
    pub open spec fn refusal_frame(
        &self,
        voltage: Option<LayerVerdictV>,
        fresh_body: Option<JsonV>,
        standing: Option<JsonV>,
    ) -> JsonV {
        let f = JsonV::obj().with("cmd"@, JsonV::Str(self.cmd@)).with(
            "message"@,
            JsonV::Str(
                self.level_unit.name_text()
                    + " level refused \u{2014} stored output calibration is stale; nothing was emitted"@,
            ),
        ).with(
            "voltage_check"@,
            match voltage {
                Some(v) => v.body,
                None => JsonV::Null,
            },
        ).with("level_unit"@, JsonV::Str(self.level_unit.name_text()));
        match fresh_body {
            Some(b) => f.with("session_check"@, b),
            None => match standing {
                Some(b) => f.with("session_check_record"@, b),
                None => f,
            },
        }
    }

    /// Decide after the probe. `fresh` is the record that it made, with the
    /// record as published; `effective` is the verdict that the recorded
    /// checks give the pair now, with the record behind it. A refused scale is
    /// withheld, and refuses the whole command when its level was typed in a
    /// physical unit.
    pub fn run(
        &self,
        fresh: Option<(&SessionCheckRecord, &Json)>,
        effective: &LayerVerdict,
        standing: &Option<Json>,
        publish: bool,
    ) -> (r: GateDecision)
        ensures
            verdict_view(r.voltage) == self.applied(
                match fresh {
                    Some((rec, _)) => Some(rec@),
                    None => None,
                },
                effective@,
            ),
            match r.frame {
                Some(f) => fresh is Some && publish && self.probe is Ok && f@ == pair_frame(
                    (fresh->0).1@,
                    self.pair_key(),
                    verdict_view(r.voltage),
                    None,
                ),
                None => !(fresh is Some && publish && self.probe is Ok),
            },
            r.withhold_voltage == refuses(verdict_view(r.voltage)),
            match r.refusal {
                Some(f) => r.withhold_voltage && self.level_unit.is_physical() && f@
                    == self.refusal_frame(
                    verdict_view(r.voltage),
                    match fresh {
                        Some((_, b)) => Some(b@),
                        None => None,
                    },
                    match *standing {
                        Some(b) => Some(b@),
                        None => None,
                    },
                ),
                None => !(r.withhold_voltage && self.level_unit.is_physical()),
            },
    {
        let voltage: Option<LayerVerdict> = match &self.pair {
            None => None,
            Some(p) => if !p.has_voltage {
                None
            } else {
                let mut chosen: Option<LayerVerdict> = None;
                match fresh {
                    Some((rec, _)) => match &rec.voltage {
                        Some(v) => {
                            if str_eq(rec.loopback.key.as_str(), p.key.as_str()) && (
                            v.is_decisive() || !effective.is_refused()) {
                                chosen = Some(v.copy());
                            }
                        },
                        None => {},
                    },
                    None => {},
                }
                match chosen {
                    Some(v) => Some(v),
                    None => Some(effective.copy()),
                }
            },
        };
        let frame: Option<Json> = match fresh {
            Some((_, body)) => if publish && self.probe.is_ok() {
                let key: Option<String> = match &self.pair {
                    Some(p) => Some(p.key.clone()),
                    None => None,
                };
                Some(publish_frame(body, &key, &voltage, &None))
            } else {
                None
            },
            None => None,
        };
        let refused: bool = match &voltage {
            Some(v) => v.is_refused(),
            None => false,
        };
        let refusal: Option<Json> = if refused && self.level_unit.physical() {
            let message = self.level_unit.name().to_owned().concat(
                " level refused \u{2014} stored output calibration is stale; nothing was emitted",
            );
            let f = Json::obj().with("cmd", Json::string(self.cmd.as_str())).with(
                "message",
                Json::Str(message),
            ).with(
                "voltage_check",
                match &voltage {
                    Some(v) => v.body.copy(),
                    None => Json::Null,
                },
            ).with("level_unit", Json::string(self.level_unit.name()));
            Some(
                match fresh {
                    Some((_, body)) => f.with("session_check", body.copy()),
                    None => match standing {
                        Some(b) => f.with("session_check_record", b.copy()),
                        None => f,
                    },
                },
            )
        } else {
            None
        };
        GateDecision { voltage, frame, refusal, withhold_voltage: refused }
    }
}

/// A record with a latency verdict, where there is one.
pub open spec fn completed(rec: RecordV, latency: Option<LayerVerdictV>) -> RecordV {
    match latency {
        Some(v) => RecordV { latency: Some(v), ..rec },
        None => rec,
    }
}

/// Whether a layer of a completed record was judged by this check.
pub open spec fn judged(rec: RecordV, latency: bool) -> bool {
    latency || rec.voltage is Some
}

/// What becomes of a gate's record once the latency is known.
pub struct LatencyStep {
    /// The record, with the latency verdict in it.
    pub record: Option<SessionCheckRecord>,
    /// The record's reach is to be found again, as its latency changed.
    pub reach: bool,
    /// The record is to be stored.
    pub store: bool,
}

impl Gate {
    /// Completes a gate's record with a latency verdict. A record is stored
    /// where any of its layers was judged.
    pub fn finish_latency(
        &self,
        record: Option<SessionCheckRecord>,
        latency: Option<LayerVerdict>,
    ) -> (r: LatencyStep)
        ensures
            match record {
                None => r.record is None && !r.reach && !r.store,
                Some(rec) => {
                    &&& r.record is Some
                    &&& r.record->0@ == completed(rec@, verdict_view(latency))
                    &&& r.reach == (latency is Some)
                    &&& r.store == judged(completed(rec@, verdict_view(latency)), latency is Some)
                },
            },
    {
        match record {
            None => LatencyStep { record: None, reach: false, store: false },
            Some(rec) => {
                let mut rec = rec;
                let ghost before = rec@;
                match latency {
                    Some(v) => {
                        let ghost verdict = v@;
                        rec.latency = Some(v);
                        assert(rec@ =~= RecordV { latency: Some(verdict), ..before });
                        LatencyStep { record: Some(rec), reach: true, store: true }
                    },
                    None => {
                        let store: bool = rec.voltage.is_some();
                        LatencyStep { record: Some(rec), reach: false, store }
                    },
                }
            },
        }
    }

    /// The `session_check` frame of a completed record.
    pub fn latency_frame(
        &self,
        body: &Json,
        voltage: &Option<LayerVerdict>,
        pair: &Option<LayerVerdict>,
    ) -> (r: Json)
        ensures
            r@ == pair_frame(body@, self.pair_key(), verdict_view(*voltage), verdict_view(*pair)),
    {
        let key: Option<String> = match &self.pair {
            Some(p) => Some(p.key.clone()),
            None => None,
        };
        publish_frame(body, &key, voltage, pair)
    }
}

/// The verdict that a reply shows of a pair's voltage scale: none where none
/// is stored.
pub fn voltage_check(pair: &Option<PairCal>, verdict: &LayerVerdict) -> (r: Option<LayerVerdict>)
    ensures
        verdict_view(r) == (if stores_voltage(*pair) {
            Some(verdict@)
        } else {
            None
        }),
{
    match pair {
        Some(p) => if p.has_voltage {
            Some(verdict.copy())
        } else {
            None
        },
        None => None,
    }
}

/// The reason of a pair that stores no latency.
pub const NO_STORED_TAU: &'static str = "no stored latency for this pair";

/// The `session_check` block of a stored entry: the verdicts that stand now,
/// and the records that decided them.
pub open spec fn live_block_of(
    voltage: LayerVerdictV,
    latency: LayerVerdictV,
    voltage_record: JsonV,
    latency_record: JsonV,
) -> JsonV {
    JsonV::obj().with("voltage"@, voltage.body).with("latency"@, latency.body).with(
        "recorded"@,
        JsonV::obj().with("voltage"@, voltage_record).with("latency"@, latency_record),
    )
}

/// The `session_check` block of a stored entry.
pub fn live_block(
    voltage: &LayerVerdict,
    latency: &LayerVerdict,
    voltage_record: &Json,
    latency_record: &Json,
) -> (r: Json)
    ensures
        r@ == live_block_of(voltage@, latency@, voltage_record@, latency_record@),
{
    Json::obj().with("voltage", voltage.body.copy()).with("latency", latency.body.copy()).with(
        "recorded",
        Json::obj().with("voltage", voltage_record.copy()).with(
            "latency",
            latency_record.copy(),
        ),
    )
}

/// A verdict as published, or null.
pub open spec fn verdict_json(v: Option<LayerVerdictV>) -> JsonV {
    match v {
        Some(v) => v.body,
        None => JsonV::Null,
    }
}

/// A `session_check` frame: the record, plus the command pair's own verdicts
/// when the command consumes a pair.
pub open spec fn pair_frame(
    body: JsonV,
    pair_key: Option<Seq<char>>,
    voltage: Option<LayerVerdictV>,
    latency: Option<LayerVerdictV>,
) -> JsonV {
    match pair_key {
        Some(key) => body.with(
            "pair"@,
            JsonV::obj().with("key"@, JsonV::Str(key)).with("voltage"@, verdict_json(voltage)).with(
                "latency"@,
                verdict_json(latency),
            ),
        ),
        None => body,
    }
}

fn verdict_body(v: &Option<LayerVerdict>) -> (r: Json)
    ensures
        r@ == verdict_json(verdict_view(*v)),
{
    match v {
        Some(v) => v.body.copy(),
        None => Json::Null,
    }
}

/// A `session_check` frame.
pub fn publish_frame(
    body: &Json,
    pair_key: &Option<String>,
    voltage: &Option<LayerVerdict>,
    latency: &Option<LayerVerdict>,
) -> (r: Json)
    ensures
        r@ == pair_frame(
            body@,
            opt_text(*pair_key),
            verdict_view(*voltage),
            verdict_view(*latency),
        ),
{
    match pair_key {
        Some(key) => body.copy().with(
            "pair",
            Json::obj().with("key", Json::string(key.as_str())).with(
                "voltage",
                verdict_body(voltage),
            ).with("latency", verdict_body(latency)),
        ),
        None => body.copy(),
    }
}

/// An earlier refusal stands until a probe of the pair itself decides: a
/// probe of another loopback, or one that verified nothing, changes nothing.
pub proof fn an_earlier_refusal_stands_until_a_probe_decides(
    gate: &Gate,
    fresh: Option<RecordV>,
    effective: LayerVerdictV,
)
    requires
        stores_voltage(gate.pair),
        effective.kind == VerdictKind::Refused,
        fresh matches Some(rec) ==> Some(rec.loopback.key) != gate.pair_key()
            || rec.voltage is None || rec.voltage->0.kind == VerdictKind::Unverified,
    ensures
        gate.applied(fresh, effective) == Some(effective),
        refuses(gate.applied(fresh, effective)),
{
}

/// A probe of the command's own pair is believed: what it found is applied,
/// whatever it found, unless the recorded verdict is a refusal; and where it
/// decided anything it is applied whatever is recorded.
pub proof fn a_probe_of_the_pair_is_applied(
    gate: &Gate,
    probe: RecordV,
    recorded: LayerVerdictV,
)
    requires
        gate.pair is Some,
        gate.pair->0.has_voltage,
        probe.loopback.key == gate.pair->0.key@,
        probe.voltage is Some,
    ensures
        recorded.kind != VerdictKind::Refused ==> gate.applied(Some(probe), recorded)
            == probe.voltage,
        probe.voltage->0.kind == VerdictKind::Verified ==> gate.applied(Some(probe), recorded)
            == probe.voltage && !refuses(gate.applied(Some(probe), recorded)),
        probe.voltage->0.kind == VerdictKind::Refused ==> gate.applied(Some(probe), recorded)
            == probe.voltage && refuses(gate.applied(Some(probe), recorded)),
{
}

/// What is recorded is applied where no probe of the pair found anything; a
/// pair without a stored scale has no verdict at all, so that nothing of it is
/// withheld.
pub proof fn the_record_is_applied_without_a_probe(
    gate: &Gate,
    probe: Option<RecordV>,
    recorded: LayerVerdictV,
)
    ensures
        gate.pair is None || !gate.pair->0.has_voltage ==> gate.applied(probe, recorded) is None
            && !refuses(gate.applied(probe, recorded)),
        gate.pair is Some && gate.pair->0.has_voltage ==> gate.applied(probe, recorded) is Some,
        gate.pair is Some && gate.pair->0.has_voltage && (probe is None || (
        probe->0).loopback.key != gate.pair->0.key@ || (probe->0).voltage is None)
            ==> gate.applied(probe, recorded) == Some(recorded),
{
}

/// A published record tells the pair under its own names: its key, and each
/// layer's verdict as that layer's. The record's other fields stay, and a
/// command without a pair adds nothing.
pub proof fn the_pair_is_told_by_name(
    body: JsonV,
    key: Seq<char>,
    voltage: Option<LayerVerdictV>,
    latency: Option<LayerVerdictV>,
    other: Seq<char>,
)
    requires
        body is Obj,
        other != "pair"@,
    ensures
        pair_frame(body, None, voltage, latency) == body,
        pair_frame(body, Some(key), voltage, latency).field(other) == body.field(other),
        pair_frame(body, Some(key), voltage, latency).field("pair"@) matches Some(pair)
            && pair.field("key"@) == Some(JsonV::Str(key))
            && (voltage matches Some(v) ==> pair.field("voltage"@) == Some(v.body))
            && (voltage is None ==> pair.field("voltage"@) == Some(JsonV::Null))
            && (latency matches Some(v) ==> pair.field("latency"@) == Some(v.body))
            && (latency is None ==> pair.field("latency"@) == Some(JsonV::Null)),
{
    fields_read_back();
    reveal_strlit("key");
    reveal_strlit("voltage");
    reveal_strlit("latency");
    assert("key"@.len() == 3);
    assert("voltage"@.len() == 7);
    assert("latency"@.len() == 7);
    assert("voltage"@[0] != "latency"@[0]);
}

/// A refused level is answered by name: the command, the refused verdict, the
/// unit, and the check of this very run, or else the one on record.
pub proof fn a_refused_level_is_told_by_name(
    gate: &Gate,
    verdict: LayerVerdictV,
    checked: Option<JsonV>,
    standing: Option<JsonV>,
)
    ensures
        ({
            let frame = gate.refusal_frame(Some(verdict), checked, standing);
            &&& frame.field("cmd"@) == Some(JsonV::Str(gate.cmd@))
            &&& frame.field("voltage_check"@) == Some(verdict.body)
            &&& frame.field("level_unit"@) == Some(JsonV::Str(gate.level_unit.name_text()))
            &&& frame.field("session_check"@) == checked
            &&& frame.field("session_check_record"@) == (if checked is Some {
                None
            } else {
                standing
            })
            &&& frame.field("message"@) matches Some(JsonV::Str(m))
                && gate.level_unit.name_text().is_prefix_of(m)
        }),
{
    fields_read_back();
    reveal_strlit("cmd");
    reveal_strlit("message");
    reveal_strlit("voltage_check");
    reveal_strlit("level_unit");
    reveal_strlit("session_check");
    reveal_strlit("session_check_record");
    assert("cmd"@.len() == 3);
    assert("message"@.len() == 7);
    assert("voltage_check"@.len() == 13);
    assert("level_unit"@.len() == 10);
    assert("session_check"@.len() == 13);
    assert("session_check_record"@.len() == 20);
    assert("voltage_check"@[0] != "session_check"@[0]);
    let unit = gate.level_unit.name_text();
    let rest =
        " level refused \u{2014} stored output calibration is stale; nothing was emitted"@;
    assert((unit + rest).subrange(0, unit.len() as int) =~= unit);
}

/// The probe runs where a scale is at stake and the loopback is known, and
/// then on that loopback; else the reason says what is missing.
pub proof fn the_probe_runs_on_the_loopback(
    loopback: Result<Option<LoopbackV>, Seq<char>>,
    needs_voltage: bool,
    uses_tau: bool,
)
    ensures
        ({
            let probe = probe_of(loopback, needs_voltage, uses_tau);
            &&& probe is Ok <==> needs_voltage && loopback is Ok && loopback->Ok_0 is Some
            &&& probe is Ok ==> loopback->Ok_0 == Some(probe->Ok_0)
            &&& loopback is Err && (needs_voltage || uses_tau) ==> probe->Err_0
                == loopback->Err_0
            &&& loopback is Ok && loopback->Ok_0 is None && (needs_voltage || uses_tau)
                ==> probe->Err_0 == NO_LOOPBACK@
            &&& !needs_voltage && !uses_tau ==> probe->Err_0
                == "no stored voltage scale in use"@
        }),
{
}

/// A reply announces a check exactly where one will be published, and gives a
/// reason exactly where none will.
pub proof fn a_reply_says_whether_a_check_comes(
    reply: JsonV,
    probe: Result<LoopbackV, Seq<char>>,
    tau: bool,
)
    requires
        reply is Obj,
        reply.field("session_check_reason"@) is None,
    ensures
        ({
            let r = check_fields(reply, probe, tau);
            &&& probe is Ok || tau ==> r.field("session_check"@) == Some(JsonV::Str("pending"@))
                && r.field("session_check_reason"@) is None
            &&& probe is Err && !tau ==> r.field("session_check"@) == Some(
                JsonV::Str("not_run"@),
            ) && r.field("session_check_reason"@) == Some(JsonV::Str(probe->Err_0))
        }),
{
    fields_read_back();
    reveal_strlit("session_check");
    reveal_strlit("session_check_reason");
    assert("session_check"@.len() == 13);
    assert("session_check_reason"@.len() == 20);
}

/// The block of a stored entry tells each layer's standing verdict under that
/// layer's name, and the record behind each under the same name again.
pub proof fn a_block_tells_each_layer_by_name(
    voltage: LayerVerdictV,
    latency: LayerVerdictV,
    voltage_record: JsonV,
    latency_record: JsonV,
)
    ensures
        ({
            let block = live_block_of(voltage, latency, voltage_record, latency_record);
            &&& block.field("voltage"@) == Some(voltage.body)
            &&& block.field("latency"@) == Some(latency.body)
            &&& block.field("recorded"@) matches Some(recorded) && recorded.field("voltage"@)
                == Some(voltage_record) && recorded.field("latency"@) == Some(latency_record)
        }),
{
    fields_read_back();
    reveal_strlit("voltage");
    reveal_strlit("latency");
    reveal_strlit("recorded");
    assert("voltage"@.len() == 7);
    assert("latency"@.len() == 7);
    assert("recorded"@.len() == 8);
    assert("voltage"@[0] != "latency"@[0]);
}

/// Completing a record adds the latency verdict and touches nothing else of
/// it; without a verdict the record is as it was.
pub proof fn completing_adds_the_latency_alone(rec: RecordV, latency: Option<LayerVerdictV>)
    ensures
        ({
            let done = completed(rec, latency);
            &&& latency is Some ==> done.latency == latency
            &&& latency is None ==> done == rec
            &&& done.id == rec.id && done.ran_at == rec.ran_at && done.source == rec.source
            &&& done.cmd == rec.cmd && done.loopback == rec.loopback
            &&& done.voltage == rec.voltage
            &&& done.persisted == rec.persisted && done.persist_error == rec.persist_error
        }),
{
}

/// A request names its unit by the unit's own word, and a request that names
/// none means dBFS.
pub proof fn units_go_by_their_words(cmd: JsonV)
    ensures
        unit_of(cmd) == Some(LevelUnit::Dbu) <==> cmd.field("level_unit"@) == Some(
            JsonV::Str("dbu"@),
        ),
        unit_of(cmd) == Some(LevelUnit::Vrms) <==> cmd.field("level_unit"@) == Some(
            JsonV::Str("vrms"@),
        ),
        unit_of(cmd) == Some(LevelUnit::Dbfs) <==> cmd.field("level_unit"@) is None
            || cmd.field("level_unit"@) == Some(JsonV::Null) || cmd.field("level_unit"@) == Some(
            JsonV::Str("dbfs"@),
        ),
{
    reveal_strlit("dbfs");
    reveal_strlit("dbu");
    reveal_strlit("vrms");
    assert("dbfs"@.len() == 4);
    assert("dbu"@.len() == 3);
    assert("vrms"@.len() == 4);
    assert("dbfs"@[0] != "vrms"@[0]);
}

/// The loopback runs from the reference output, or the main one where none is
/// configured, to the reference input, on the ports of those channels; its
/// key names the same two channels.
pub proof fn the_loopback_is_the_configured_one(
    cfg: ConfigV,
    playback: Seq<Seq<char>>,
    capture: Seq<Seq<char>>,
)
    requires
        cfg.reference_channel is Some,
    ensures
        loopback_of(cfg, playback, capture) matches Ok(Some(l)) ==> {
            &&& cfg.reference_channel == Some(l.in_ch)
            &&& cfg.reference_output_channel == Some(l.out_ch) || (cfg.reference_output_channel
                is None && l.out_ch == cfg.output_channel)
            &&& ref_input_of(cfg, capture) == Ok::<Option<Seq<char>>, Seq<char>>(
                Some(l.input_port),
            )
            &&& ref_output_of(cfg, playback) == Ok::<Seq<char>, Seq<char>>(l.output_port)
            &&& loopback_key_of(cfg) == Some(key_text(l.out_ch, l.in_ch))
        },
        ref_input_of(cfg, capture) matches Err(e) ==> loopback_of(cfg, playback, capture) == Err::<
            Option<LoopbackV>,
            Seq<char>,
        >(e + "; check: `ac devices`, `ac setup reference`"@),
{
}

/// Without a reference input there is no loopback and no key.
pub proof fn no_reference_no_key(cfg: ConfigV)
    ensures
        loopback_key_of(cfg) is Some <==> cfg.reference_channel is Some,
{
}

/// The latency layer is judged where it was measured, the voltage layer where
/// the record has a verdict on it.
pub proof fn a_layer_is_judged_where_it_was_checked(rec: RecordV)
    ensures
        judged(rec, true),
        judged(rec, false) <==> rec.voltage is Some,
{
}

proof fn numerals_are_digits(n: nat)
    ensures
        dec(n).len() > 0,
        forall|i: int| 0 <= i < dec(n).len() ==> '0' <= #[trigger] dec(n)[i] <= '9',
    decreases n,
{
    if n >= 10 {
        numerals_are_digits(n / 10);
    }
}

/// Two pairs of channels with one key are one pair.
pub proof fn keys_tell_pairs_apart(a: u32, b: u32, c: u32, d: u32)
    ensures
        key_text(a, b) == key_text(c, d) ==> a == c && b == d,
{
    reveal_strlit("out");
    reveal_strlit("_in");
    let (x, y) = (dec(a as nat), dec(b as nat));
    let (u, v) = (dec(c as nat), dec(d as nat));
    numerals_are_digits(a as nat);
    numerals_are_digits(c as nat);
    numerals_denote_their_number(a as nat);
    numerals_denote_their_number(b as nat);
    numerals_denote_their_number(c as nat);
    numerals_denote_their_number(d as nat);
    let s = key_text(a, b);
    let t = key_text(c, d);
    if s == t {
        assert(s[3 + x.len() as int] == '_');
        assert(t[3 + u.len() as int] == '_');
        if x.len() < u.len() {
            assert(t[3 + x.len() as int] == u[x.len() as int]);
        }
        if u.len() < x.len() {
            assert(s[3 + u.len() as int] == x[u.len() as int]);
        }
        assert(x =~= s.subrange(3, 3 + x.len() as int));
        assert(u =~= t.subrange(3, 3 + u.len() as int));
        assert(y =~= s.subrange(6 + x.len() as int, s.len() as int));
        assert(v =~= t.subrange(6 + u.len() as int, t.len() as int));
    }
}

/// A stored scale decides what is emitted for every unit but dBFS.
pub proof fn volts_and_dbu_need_a_scale()
    ensures
        !LevelUnit::Dbfs.is_physical(),
        LevelUnit::Dbu.is_physical(),
        LevelUnit::Vrms.is_physical(),
{
}

} // verus!
