//! The `plot`, `plot_level` and `plot_ir` commands: what they ask for, the
//! run over their points, and their frames.
//!
//! A plot drives no more than the session's ceiling: a level above it is
//! lowered to it, and the reply and the frames carry the level that was
//! driven.
use vstd::prelude::*;

use crate::double::{Double, Single, ONE};
use crate::emission::{AUDIO_HIGH, AUDIO_LOW, DEFAULT_TONE};
use crate::json::{double_views, fields_read_back, finite_or_null, Json, JsonV};
use crate::launch::{count_or, get_count, get_number, number_or, Launch};
use crate::point::{
    an_analysis_is_told_by_name, Analysis, point_frame_of, PointVolts, sweep_point_frame, Tier1Ctx,
};
use crate::ports::{input_of, output_of, resolve_input, resolve_output};
use crate::settings::{ok, ok_reply};
use crate::text::texts;
use crate::wire::{double_field, get_uint, refusal_reply, refuse, uint_field};

verus! {

/// A level under the session's ceiling.
pub fn apply_drive_ceiling(ceiling_dbfs: Double, level_dbfs: Double) -> (r: Double)
    ensures
        r == level_dbfs.lesser(ceiling_dbfs),
{
    level_dbfs.min_with(ceiling_dbfs)
}

/// The first reason to refuse a plot: what blocks it, the output, the input.
pub open spec fn plot_refusal(l: &Launch, name: Seq<char>) -> Option<JsonV> {
    match l.blocked(name) {
        Some(e) => Some(refusal_reply(e)),
        None => match output_of(l.cfg@, texts(l.playback@)) {
            Err(e) => Some(refusal_reply(e)),
            Ok(_) => match input_of(l.cfg@, texts(l.capture@)) {
                Err(e) => Some(refusal_reply(e)),
                Ok(_) => None,
            },
        },
    }
}

/// The ports that a plot plays to and captures from.
#[derive(Debug)]
pub struct PlotPorts {
    pub out_port: String,
    pub in_port: String,
}

impl PlotPorts {
    /// The ports are those that the configuration resolves to.
    pub open spec fn resolved(&self, l: &Launch) -> bool {
        &&& output_of(l.cfg@, texts(l.playback@)) == Ok::<Seq<char>, Seq<char>>(self.out_port@)
        &&& input_of(l.cfg@, texts(l.capture@)) == Ok::<Seq<char>, Seq<char>>(self.in_port@)
    }
}

fn plot_ports(l: &Launch, name: &str) -> (r: Result<PlotPorts, Json>)
    ensures
        match r {
            Err(e) => plot_refusal(l, name@) == Some(e@),
            Ok(p) => plot_refusal(l, name@) is None && p.resolved(l),
        },
{
    match l.check(name) {
        Some(e) => return Err(refuse(e.as_str())),
        None => {},
    }
    let out_port = match resolve_output(l.cfg, l.playback) {
        Ok(p) => p,
        Err(e) => return Err(refuse(e.as_str())),
    };
    let in_port = match resolve_input(l.cfg, l.capture) {
        Ok(p) => p,
        Err(e) => return Err(refuse(e.as_str())),
    };
    Ok(PlotPorts { out_port, in_port })
}

/// The default level of a frequency plot, -10 dBFS.
pub const PLOT_LEVEL: u64 = 0xC024_0000_0000_0000;

/// An accepted frequency plot.
#[derive(Debug)]
pub struct PlotPlan {
    pub start_hz: Double,
    pub stop_hz: Double,
    pub level_dbfs: Double,
    /// Points per decade.
    pub ppd: u64,
    pub duration: Double,
    /// Bands per octave of the band report, if one is asked for.
    pub bpo: Option<u64>,
    pub ports: PlotPorts,
}

impl PlotPlan {
    /// The plan is what the request asks for, with a default for what it does
    /// not name and the level under the session's ceiling.
    pub open spec fn answers(&self, l: &Launch, cmd: JsonV) -> bool {
        &&& self.start_hz == number_or(cmd, "start_hz"@, Double { bits: AUDIO_LOW })
        &&& self.stop_hz == number_or(cmd, "stop_hz"@, Double { bits: AUDIO_HIGH })
        &&& self.level_dbfs == number_or(
            cmd,
            "level_dbfs"@,
            Double { bits: PLOT_LEVEL },
        ).lesser(l.cfg.drive_max_dbfs)
        &&& self.ppd == count_or(cmd, "ppd"@, 10)
        &&& self.duration == number_or(cmd, "duration"@, Double { bits: ONE })
        &&& self.bpo == uint_field(cmd, "bpo"@)
        &&& self.ports.resolved(l)
    }
}

/// `plot`, up to the start of its worker.
pub fn plot(l: &Launch, cmd: &Json) -> (r: Result<PlotPlan, Json>)
    ensures
        match r {
            Err(e) => plot_refusal(l, "plot"@) == Some(e@),
            Ok(p) => {
                &&& plot_refusal(l, "plot"@) is None
                &&& p.answers(l, cmd@)
            },
        },
{
    let ports = match plot_ports(l, "plot") {
        Ok(p) => p,
        Err(e) => return Err(e),
    };
    let level: Double = get_number(cmd, "level_dbfs", Double::new(PLOT_LEVEL));
    Ok(
        PlotPlan {
            start_hz: get_number(cmd, "start_hz", Double::new(AUDIO_LOW)),
            stop_hz: get_number(cmd, "stop_hz", Double::new(AUDIO_HIGH)),
            level_dbfs: apply_drive_ceiling(l.cfg.drive_max_dbfs, level),
            ppd: get_count(cmd, "ppd", 10),
            duration: get_number(cmd, "duration", Double::new(ONE)),
            bpo: get_uint(cmd, "bpo"),
            ports,
        },
    )
}

/// The reply to an accepted frequency plot.
pub open spec fn plot_reply(plan: &PlotPlan) -> JsonV {
    ok_reply().with("out_port"@, JsonV::Str(plan.ports.out_port@)).with(
        "in_port"@,
        JsonV::Str(plan.ports.in_port@),
    ).with("level_dbfs"@, finite_or_null(plan.level_dbfs))
}

/// The reply to an accepted frequency plot.
pub fn plot_started(plan: &PlotPlan) -> (r: Json)
    ensures
        r@ == plot_reply(plan),
{
    ok().with("out_port", Json::string(plan.ports.out_port.as_str())).with(
        "in_port",
        Json::string(plan.ports.in_port.as_str()),
    ).with("level_dbfs", Json::float(plan.level_dbfs))
}

/// The default first level of a level plot, -40 dBFS.
pub const LEVELS_FROM: u64 = 0xC044_0000_0000_0000;

/// An accepted level plot. The ends are as requested: the ceiling is applied
/// to each level of the range, which flattens there rather than shifting.
#[derive(Debug)]
pub struct PlotLevelPlan {
    pub freq_hz: Double,
    pub start_dbfs: Double,
    pub stop_dbfs: Double,
    pub steps: u64,
    pub duration: Double,
    pub ceiling_dbfs: Double,
    pub ports: PlotPorts,
}

impl PlotLevelPlan {
    /// The plan is what the request asks for, with a default for what it does
    /// not name.
    pub open spec fn answers(&self, l: &Launch, cmd: JsonV) -> bool {
        &&& self.freq_hz == number_or(cmd, "freq_hz"@, Double { bits: DEFAULT_TONE })
        &&& self.start_dbfs == number_or(cmd, "start_dbfs"@, Double { bits: LEVELS_FROM })
        &&& self.stop_dbfs == number_or(cmd, "stop_dbfs"@, Double { bits: 0 })
        &&& self.steps == count_or(cmd, "steps"@, 26)
        &&& self.duration == number_or(cmd, "duration"@, Double { bits: ONE })
        &&& self.ceiling_dbfs == l.cfg.drive_max_dbfs
        &&& self.ports.resolved(l)
    }
}

/// `plot_level`, up to the start of its worker.
pub fn plot_level(l: &Launch, cmd: &Json) -> (r: Result<PlotLevelPlan, Json>)
    ensures
        match r {
            Err(e) => plot_refusal(l, "plot_level"@) == Some(e@),
            Ok(p) => {
                &&& plot_refusal(l, "plot_level"@) is None
                &&& p.answers(l, cmd@)
            },
        },
{
    let ports = match plot_ports(l, "plot_level") {
        Ok(p) => p,
        Err(e) => return Err(e),
    };
    Ok(
        PlotLevelPlan {
            freq_hz: get_number(cmd, "freq_hz", Double::new(DEFAULT_TONE)),
            start_dbfs: get_number(cmd, "start_dbfs", Double::new(LEVELS_FROM)),
            stop_dbfs: get_number(cmd, "stop_dbfs", Double::new(0)),
            steps: get_count(cmd, "steps", 26),
            duration: get_number(cmd, "duration", Double::new(ONE)),
            ceiling_dbfs: l.cfg.drive_max_dbfs,
            ports,
        },
    )
}

/// The reply to an accepted level plot: the ends as they will be driven.
pub open spec fn plot_level_reply(plan: &PlotLevelPlan) -> JsonV {
    ok_reply().with("out_port"@, JsonV::Str(plan.ports.out_port@)).with(
        "in_port"@,
        JsonV::Str(plan.ports.in_port@),
    ).with(
        "start_dbfs"@,
        finite_or_null(plan.start_dbfs.lesser(plan.ceiling_dbfs)),
    ).with("stop_dbfs"@, finite_or_null(plan.stop_dbfs.lesser(plan.ceiling_dbfs)))
}

/// The reply to an accepted level plot.
pub fn plot_level_started(plan: &PlotLevelPlan) -> (r: Json)
    ensures
        r@ == plot_level_reply(plan),
{
    ok().with("out_port", Json::string(plan.ports.out_port.as_str())).with(
        "in_port",
        Json::string(plan.ports.in_port.as_str()),
    ).with(
        "start_dbfs",
        Json::float(apply_drive_ceiling(plan.ceiling_dbfs, plan.start_dbfs)),
    ).with("stop_dbfs", Json::float(apply_drive_ceiling(plan.ceiling_dbfs, plan.stop_dbfs)))
}

/// The default level of an impulse-response sweep, -6 dBFS.
pub const IR_LEVEL: u64 = 0xC018_0000_0000_0000;

/// The default tail of an impulse-response capture, half a second.
pub const IR_TAIL: u64 = 0x3FE0_0000_0000_0000;

/// An accepted impulse-response sweep.
#[derive(Debug)]
pub struct PlotIrPlan {
    pub f1_hz: Double,
    pub f2_hz: Double,
    pub duration: Double,
    pub level_dbfs: Double,
    pub tail_s: Double,
    pub n_harmonics: u64,
    /// The window length that is asked for; a crowded order gets less.
    pub window_len: u64,
    pub ports: PlotPorts,
}

impl PlotIrPlan {
    /// The plan is what the request asks for, with a default for what it does
    /// not name and the level under the session's ceiling.
    pub open spec fn answers(&self, l: &Launch, cmd: JsonV) -> bool {
        &&& self.f1_hz == number_or(cmd, "f1_hz"@, Double { bits: AUDIO_LOW })
        &&& self.f2_hz == number_or(cmd, "f2_hz"@, Double { bits: AUDIO_HIGH })
        &&& self.duration == number_or(cmd, "duration"@, Double { bits: ONE })
        &&& self.level_dbfs == number_or(
            cmd,
            "level_dbfs"@,
            Double { bits: IR_LEVEL },
        ).lesser(l.cfg.drive_max_dbfs)
        &&& self.tail_s == number_or(cmd, "tail_s"@, Double { bits: IR_TAIL })
        &&& self.n_harmonics == count_or(cmd, "n_harmonics"@, 5)
        &&& self.window_len == count_or(cmd, "window_len"@, 4096)
        &&& self.ports.resolved(l)
    }
}

/// `plot_ir`, up to the start of its worker.
pub fn plot_ir(l: &Launch, cmd: &Json) -> (r: Result<PlotIrPlan, Json>)
    ensures
        match r {
            Err(e) => plot_refusal(l, "plot_ir"@) == Some(e@),
            Ok(p) => {
                &&& plot_refusal(l, "plot_ir"@) is None
                &&& p.answers(l, cmd@)
            },
        },
{
    let ports = match plot_ports(l, "plot_ir") {
        Ok(p) => p,
        Err(e) => return Err(e),
    };
    let level: Double = get_number(cmd, "level_dbfs", Double::new(IR_LEVEL));
    Ok(
        PlotIrPlan {
            f1_hz: get_number(cmd, "f1_hz", Double::new(AUDIO_LOW)),
            f2_hz: get_number(cmd, "f2_hz", Double::new(AUDIO_HIGH)),
            duration: get_number(cmd, "duration", Double::new(ONE)),
            level_dbfs: apply_drive_ceiling(l.cfg.drive_max_dbfs, level),
            tail_s: get_number(cmd, "tail_s", Double::new(IR_TAIL)),
            n_harmonics: get_count(cmd, "n_harmonics", 5),
            window_len: get_count(cmd, "window_len", 4096),
            ports,
        },
    )
}

/// The reply to an accepted impulse-response sweep.
pub open spec fn plot_ir_reply(plan: &PlotIrPlan) -> JsonV {
    ok_reply().with("out_port"@, JsonV::Str(plan.ports.out_port@)).with(
        "level_dbfs"@,
        finite_or_null(plan.level_dbfs),
    )
}

/// The reply to an accepted impulse-response sweep.
pub fn plot_ir_started(plan: &PlotIrPlan) -> (r: Json)
    ensures
        r@ == plot_ir_reply(plan),
{
    ok().with("out_port", Json::string(plan.ports.out_port.as_str())).with(
        "level_dbfs",
        Json::float(plan.level_dbfs),
    )
}

/// One tone of a run.
#[derive(Debug, Clone, Copy)]
pub struct ToneStep {
    pub freq_hz: Double,
    pub level_dbfs: Double,
}

/// The tones of a frequency plot.
pub open spec fn frequency_tones(freqs: Seq<Double>, level_dbfs: Double) -> Seq<ToneStep> {
    freqs.map_values(|f: Double| ToneStep { freq_hz: f, level_dbfs })
}

/// The tones of a frequency plot.
pub fn frequency_steps(freqs: &Vec<Double>, level_dbfs: Double) -> (r: Vec<ToneStep>)
    ensures
        r@ == frequency_tones(freqs@, level_dbfs),
{
    let mut out: Vec<ToneStep> = Vec::new();
    let mut i: usize = 0;
    let ghost tone = |f: Double| ToneStep { freq_hz: f, level_dbfs };
    while i < freqs.len()
        invariant
            i <= freqs@.len(),
            tone == (|f: Double| ToneStep { freq_hz: f, level_dbfs }),
            out@ == freqs@.take(i as int).map_values(tone),
        decreases freqs@.len() - i,
    {
        out.push(ToneStep { freq_hz: freqs[i], level_dbfs });
        i = i + 1;
        assert(out@ =~= freqs@.take(i as int).map_values(tone));
    }
    assert(freqs@.take(i as int) =~= freqs@);
    out
}

/// The tones of a level plot, each under the ceiling.
pub open spec fn level_tones(
    freq_hz: Double,
    levels: Seq<Double>,
    ceiling_dbfs: Double,
) -> Seq<ToneStep> {
    levels.map_values(|x: Double| ToneStep { freq_hz, level_dbfs: x.lesser(ceiling_dbfs) })
}

/// The tones of a level plot, each under the ceiling.
pub fn level_steps(freq_hz: Double, levels: &Vec<Double>, ceiling_dbfs: Double) -> (r: Vec<
    ToneStep,
>)
    ensures
        r@ == level_tones(freq_hz, levels@, ceiling_dbfs),
{
    let mut out: Vec<ToneStep> = Vec::new();
    let mut i: usize = 0;
    let ghost tone = |x: Double| ToneStep { freq_hz, level_dbfs: x.lesser(ceiling_dbfs) };
    while i < levels.len()
        invariant
            i <= levels@.len(),
            tone == (|x: Double| ToneStep { freq_hz, level_dbfs: x.lesser(ceiling_dbfs) }),
            out@ == levels@.take(i as int).map_values(tone),
        decreases levels@.len() - i,
    {
        out.push(ToneStep { freq_hz, level_dbfs: apply_drive_ceiling(ceiling_dbfs, levels[i]) });
        i = i + 1;
        assert(out@ =~= levels@.take(i as int).map_values(tone));
    }
    assert(levels@.take(i as int) =~= levels@);
    out
}

/// How long a tone is captured: as asked for, but at least three cycles.
pub fn hold_secs(duration: Double, three_cycles_s: Double) -> (r: Double)
    ensures
        r == duration.greater(three_cycles_s),
{
    duration.max_with(three_cycles_s)
}

/// One point of a frequency response.
#[derive(Debug, Clone, Copy)]
pub struct FrequencyResponsePoint {
    pub freq_hz: Double,
    pub fundamental_dbfs: Double,
    pub thd_pct: Double,
    pub thdn_pct: Double,
    pub noise_floor_dbfs: Double,
    pub linear_rms: Double,
    pub clipping: bool,
    pub ac_coupled: bool,
}

/// The point that an analysis gives.
pub open spec fn response_point(freq_hz: Double, r: &Analysis) -> FrequencyResponsePoint {
    FrequencyResponsePoint {
        freq_hz,
        fundamental_dbfs: r.fundamental_dbfs,
        thd_pct: r.thd_pct,
        thdn_pct: r.thdn_pct,
        noise_floor_dbfs: r.noise_floor_dbfs,
        linear_rms: r.linear_rms,
        clipping: r.clipping,
        ac_coupled: r.ac_coupled,
    }
}

/// How far a run over the tones has come.
#[derive(Debug)]
pub struct PlotRun {
    /// Tones captured.
    pub at: usize,
    /// Points published: the tones whose capture could be analysed.
    pub n: u64,
    pub xruns: u32,
    pub points: Vec<FrequencyResponsePoint>,
    /// All captures end to end, where a band report is asked for.
    pub capture: Vec<Single>,
}

impl PlotRun {
    /// Each published point is on record.
    pub open spec fn wf(&self) -> bool {
        self.n == self.points@.len() <= self.at
    }

    pub fn new() -> (r: PlotRun)
        ensures
            r.wf(),
            r.at == 0,
            r.n == 0,
            r.xruns == 0,
            r.points@.len() == 0,
            r.capture@.len() == 0,
    {
        PlotRun { at: 0, n: 0, xruns: 0, points: Vec::new(), capture: Vec::new() }
    }

    /// The tone to play next; none when stopped or when all were played.
    pub fn next(&self, steps: &Vec<ToneStep>, stopped: bool) -> (r: Option<ToneStep>)
        ensures
            r == (if !stopped && self.at < steps@.len() {
                Some(steps@[self.at as int])
            } else {
                None
            }),
    {
        if !stopped && self.at < steps.len() {
            Some(steps[self.at])
        } else {
            None
        }
    }

    /// Takes in the capture of a tone. An analysis becomes a point and its
    /// frame; a capture that could not be analysed is passed over. The
    /// samples are kept where a band report is asked for, analysed or not.
    pub fn captured(
        &mut self,
        cmd: &str,
        step: ToneStep,
        samples: &Vec<Single>,
        xruns: u32,
        analysis: &Option<Analysis>,
        volts: PointVolts,
        ctx: Tier1Ctx,
        keep: bool,
    ) -> (r: Option<Json>)
        requires
            old(self).wf(),
            old(self).at < usize::MAX,
            old(self).xruns + xruns <= u32::MAX,
            analysis is Some ==> analysis->0.wf(),
        ensures
            final(self).wf(),
            final(self).at == old(self).at + 1,
            final(self).xruns == old(self).xruns + xruns,
            final(self).capture@ == (if keep {
                old(self).capture@ + samples@
            } else {
                old(self).capture@
            }),
            match *analysis {
                Some(a) => {
                    &&& final(self).n == old(self).n + 1
                    &&& final(self).points@ == old(self).points@.push(
                        response_point(step.freq_hz, &a),
                    )
                    &&& r is Some
                    &&& r->0@ == point_frame_of(
                        &a,
                        volts,
                        old(self).n,
                        cmd@,
                        step.level_dbfs,
                        Some(step.freq_hz),
                        ctx,
                    )
                },
                None => {
                    &&& final(self).n == old(self).n
                    &&& final(self).points@ == old(self).points@
                    &&& r is None
                },
            },
    {
        self.xruns = self.xruns + xruns;
        self.at = self.at + 1;
        let frame = match analysis {
            Some(a) => {
                self.points.push(
                    FrequencyResponsePoint {
                        freq_hz: step.freq_hz,
                        fundamental_dbfs: a.fundamental_dbfs,
                        thd_pct: a.thd_pct,
                        thdn_pct: a.thdn_pct,
                        noise_floor_dbfs: a.noise_floor_dbfs,
                        linear_rms: a.linear_rms,
                        clipping: a.clipping,
                        ac_coupled: a.ac_coupled,
                    },
                );
                let f = sweep_point_frame(
                    a,
                    volts,
                    self.n,
                    cmd,
                    step.level_dbfs,
                    Some(step.freq_hz),
                    ctx,
                );
                self.n = self.n + 1;
                Some(f)
            },
            None => None,
        };
        if keep {
            let ghost before = self.capture@;
            let mut i: usize = 0;
            while i < samples.len()
                invariant
                    i <= samples@.len(),
                    self.at == old(self).at + 1,
                    self.xruns == old(self).xruns + xruns,
                    self.n == self.points@.len() <= self.at,
                    before == old(self).capture@,
                    self.capture@ == before + samples@.take(i as int),
                    match *analysis {
                        Some(a) => {
                            &&& self.n == old(self).n + 1
                            &&& self.points@ == old(self).points@.push(
                                response_point(step.freq_hz, &a),
                            )
                        },
                        None => self.n == old(self).n && self.points@ == old(self).points@,
                    },
                decreases samples@.len() - i,
            {
                self.capture.push(samples[i]);
                i = i + 1;
                assert(self.capture@ =~= before + samples@.take(i as int));
            }
            assert(samples@.take(i as int) =~= samples@);
        }
        frame
    }
}

/// The `complete` frame of a frequency plot.
pub open spec fn complete_frame_of(n: u64, xruns: u32) -> JsonV {
    JsonV::obj().with("type"@, JsonV::Str("measurement/frequency_response/complete"@)).with(
        "cmd"@,
        JsonV::Str("plot"@),
    ).with("n_points"@, JsonV::Uint(n)).with("xruns"@, JsonV::Uint(xruns as u64))
}

/// The `complete` frame of a frequency plot.
pub fn complete_frame(run: &PlotRun) -> (r: Json)
    ensures
        r@ == complete_frame_of(run.n, run.xruns),
{
    Json::obj().with("type", Json::string("measurement/frequency_response/complete")).with(
        "cmd",
        Json::string("plot"),
    ).with("n_points", Json::Uint(run.n)).with("xruns", Json::Uint(run.xruns as u64))
}

/// The `done` frame of a run over tones.
pub open spec fn run_done_of(cmd: Seq<char>, n: u64, xruns: u32) -> JsonV {
    JsonV::obj().with("cmd"@, JsonV::Str(cmd)).with("n_points"@, JsonV::Uint(n)).with(
        "xruns"@,
        JsonV::Uint(xruns as u64),
    )
}

/// The `done` frame of a run over tones.
pub fn run_done_frame(cmd: &str, run: &PlotRun) -> (r: Json)
    ensures
        r@ == run_done_of(cmd@, run.n, run.xruns),
{
    Json::obj().with("cmd", Json::string(cmd)).with("n_points", Json::Uint(run.n)).with(
        "xruns",
        Json::Uint(run.xruns as u64),
    )
}

/// The range of a band report.
pub open spec fn band_ends(start_hz: Double, stop_hz: Double, ceiling_hz: Double) -> (
    Double,
    Double,
) {
    (start_hz.greater(Double { bits: ONE }), ceiling_hz.lesser(stop_hz.greater(start_hz)))
}

/// The range of a band report: from the lower end of the sweep, but at least
/// 1 Hz, to its upper end, but below Nyquist by a margin (`ceiling_hz`).
pub fn band_range(start_hz: Double, stop_hz: Double, ceiling_hz: Double) -> (r: (Double, Double))
    ensures
        r == band_ends(start_hz, stop_hz, ceiling_hz),
{
    (start_hz.max_with(Double::new(ONE)), ceiling_hz.min_with(stop_hz.max_with(start_hz)))
}

/// The `measurement/spectrum_bands` frame.
pub open spec fn spectrum_bands_of(
    bpo: u64,
    class: Seq<char>,
    centres_hz: Seq<Double>,
    levels_dbfs: Seq<Double>,
) -> JsonV {
    JsonV::obj().with("cmd"@, JsonV::Str("plot"@)).with("bpo"@, JsonV::Uint(bpo)).with(
        "class"@,
        JsonV::Str(class),
    ).with("centres_hz"@, JsonV::Arr(double_views(centres_hz))).with(
        "levels_dbfs"@,
        JsonV::Arr(double_views(levels_dbfs)),
    )
}

/// The `measurement/spectrum_bands` frame.
pub fn emit_spectrum_bands(
    bpo: u64,
    class: &str,
    centres_hz: &Vec<Double>,
    levels_dbfs: &Vec<Double>,
) -> (r: Json)
    ensures
        r@ == spectrum_bands_of(bpo, class@, centres_hz@, levels_dbfs@),
{
    Json::obj().with("cmd", Json::string("plot")).with("bpo", Json::Uint(bpo)).with(
        "class",
        Json::string(class),
    ).with("centres_hz", Json::floats(centres_hz)).with(
        "levels_dbfs",
        Json::floats(levels_dbfs),
    )
}

/// No tone of a plot is driven above the ceiling, whatever was asked for.
pub proof fn no_tone_is_above_the_ceiling(level: Double, ceiling: Double)
    requires
        !ceiling.nan(),
    ensures
        !ceiling.below(level.lesser(ceiling)),
{
}

/// The applied ends of a level range are the range of the applied levels: the
/// ceiling keeps the order of levels.
pub proof fn the_ceiling_keeps_the_order(a: Double, b: Double, ceiling: Double)
    requires
        !ceiling.nan(),
        a.at_most(b),
    ensures
        a.lesser(ceiling).at_most(b.lesser(ceiling)),
{
}

/// Each archived point is its analysis, field by field, and so is what the
/// point's frame publishes: under each name the frame carries the number that
/// the archive keeps under it.
pub proof fn an_archived_point_is_its_analysis(
    step: ToneStep,
    analysis: Analysis,
    volts: PointVolts,
    n: u64,
    cmd: Seq<char>,
    ctx: Tier1Ctx,
)
    ensures
        ({
            let point = response_point(step.freq_hz, &analysis);
            let frame = point_frame_of(
                &analysis,
                volts,
                n,
                cmd,
                step.level_dbfs,
                Some(step.freq_hz),
                ctx,
            );
            &&& point.freq_hz == step.freq_hz
            &&& point.fundamental_dbfs == analysis.fundamental_dbfs
            &&& point.thd_pct == analysis.thd_pct
            &&& point.thdn_pct == analysis.thdn_pct
            &&& point.noise_floor_dbfs == analysis.noise_floor_dbfs
            &&& point.linear_rms == analysis.linear_rms
            &&& point.clipping == analysis.clipping
            &&& point.ac_coupled == analysis.ac_coupled
            &&& frame.field("freq_hz"@) == Some(finite_or_null(point.freq_hz))
            &&& frame.field("fundamental_dbfs"@) == Some(finite_or_null(point.fundamental_dbfs))
            &&& frame.field("thd_pct"@) == Some(finite_or_null(point.thd_pct))
            &&& frame.field("thdn_pct"@) == Some(finite_or_null(point.thdn_pct))
            &&& frame.field("noise_floor_dbfs"@) == Some(finite_or_null(point.noise_floor_dbfs))
            &&& frame.field("linear_rms"@) == Some(finite_or_null(point.linear_rms))
            &&& frame.field("clipping"@) == Some(JsonV::Bool(point.clipping))
            &&& frame.field("ac_coupled"@) == Some(JsonV::Bool(point.ac_coupled))
            &&& frame.field("drive_db"@) == Some(finite_or_null(step.level_dbfs))
        }),
{
    an_analysis_is_told_by_name(
        analysis,
        volts,
        n,
        cmd,
        step.level_dbfs,
        Some(step.freq_hz),
        ctx,
    );
}

/// What a plot request names is what is plotted, each number under its own
/// name; what it does not name is 20 Hz to 20 kHz at -10 dBFS, ten points a
/// decade, for a second; and the level never exceeds the session's ceiling.
pub proof fn a_plot_is_as_requested(plan: PlotPlan, l: &Launch, cmd: JsonV)
    requires
        plan.answers(l, cmd),
    ensures
        double_field(cmd, "start_hz"@) matches Some(x) ==> plan.start_hz == x,
        double_field(cmd, "stop_hz"@) matches Some(x) ==> plan.stop_hz == x,
        double_field(cmd, "duration"@) matches Some(x) ==> plan.duration == x,
        uint_field(cmd, "ppd"@) matches Some(k) ==> plan.ppd == k,
        plan.bpo == uint_field(cmd, "bpo"@),
        double_field(cmd, "level_dbfs"@) matches Some(x) ==> (x.below(l.cfg.drive_max_dbfs)
            ==> plan.level_dbfs == x),
        double_field(cmd, "level_dbfs"@) matches Some(x) && l.cfg.drive_max_dbfs.below(x)
            ==> plan.level_dbfs == l.cfg.drive_max_dbfs,
        !l.cfg.drive_max_dbfs.nan() ==> plan.level_dbfs.at_most(l.cfg.drive_max_dbfs),
        double_field(cmd, "start_hz"@) is None ==> plan.start_hz == (Double {
            bits: 0x4034_0000_0000_0000,
        }),
        double_field(cmd, "stop_hz"@) is None ==> plan.stop_hz == (Double {
            bits: 0x40D3_8800_0000_0000,
        }),
        double_field(cmd, "duration"@) is None ==> plan.duration == (Double {
            bits: 0x3FF0_0000_0000_0000,
        }),
        uint_field(cmd, "ppd"@) is None ==> plan.ppd == 10,
        double_field(cmd, "level_dbfs"@) is None && (Double {
            bits: 0xC024_0000_0000_0000,
        }).below(l.cfg.drive_max_dbfs) ==> plan.level_dbfs == (Double {
            bits: 0xC024_0000_0000_0000,
        }),
{
}

/// The same of a level plot: by default at 1 kHz from -40 to 0 dBFS in 26
/// steps; its ends are kept as asked for, and the ceiling is the session's.
pub proof fn a_level_plot_is_as_requested(plan: PlotLevelPlan, l: &Launch, cmd: JsonV)
    requires
        plan.answers(l, cmd),
    ensures
        double_field(cmd, "freq_hz"@) matches Some(x) ==> plan.freq_hz == x,
        double_field(cmd, "start_dbfs"@) matches Some(x) ==> plan.start_dbfs == x,
        double_field(cmd, "stop_dbfs"@) matches Some(x) ==> plan.stop_dbfs == x,
        double_field(cmd, "duration"@) matches Some(x) ==> plan.duration == x,
        uint_field(cmd, "steps"@) matches Some(k) ==> plan.steps == k,
        plan.ceiling_dbfs == l.cfg.drive_max_dbfs,
        double_field(cmd, "freq_hz"@) is None ==> plan.freq_hz == (Double {
            bits: 0x408F_4000_0000_0000,
        }),
        double_field(cmd, "start_dbfs"@) is None ==> plan.start_dbfs == (Double {
            bits: 0xC044_0000_0000_0000,
        }),
        double_field(cmd, "stop_dbfs"@) is None ==> plan.stop_dbfs == (Double { bits: 0 }),
        double_field(cmd, "duration"@) is None ==> plan.duration == (Double {
            bits: 0x3FF0_0000_0000_0000,
        }),
        uint_field(cmd, "steps"@) is None ==> plan.steps == 26,
{
}

/// The same of an impulse-response sweep: by default 20 Hz to 20 kHz for a
/// second at -6 dBFS, with half a second of tail, five harmonics and a window
/// of 4096 samples.
pub proof fn a_response_sweep_is_as_requested(plan: PlotIrPlan, l: &Launch, cmd: JsonV)
    requires
        plan.answers(l, cmd),
    ensures
        double_field(cmd, "f1_hz"@) matches Some(x) ==> plan.f1_hz == x,
        double_field(cmd, "f2_hz"@) matches Some(x) ==> plan.f2_hz == x,
        double_field(cmd, "duration"@) matches Some(x) ==> plan.duration == x,
        double_field(cmd, "tail_s"@) matches Some(x) ==> plan.tail_s == x,
        uint_field(cmd, "n_harmonics"@) matches Some(k) ==> plan.n_harmonics == k,
        uint_field(cmd, "window_len"@) matches Some(k) ==> plan.window_len == k,
        double_field(cmd, "level_dbfs"@) matches Some(x) ==> (x.below(l.cfg.drive_max_dbfs)
            ==> plan.level_dbfs == x),
        double_field(cmd, "level_dbfs"@) matches Some(x) && l.cfg.drive_max_dbfs.below(x)
            ==> plan.level_dbfs == l.cfg.drive_max_dbfs,
        !l.cfg.drive_max_dbfs.nan() ==> plan.level_dbfs.at_most(l.cfg.drive_max_dbfs),
        double_field(cmd, "f1_hz"@) is None ==> plan.f1_hz == (Double {
            bits: 0x4034_0000_0000_0000,
        }),
        double_field(cmd, "f2_hz"@) is None ==> plan.f2_hz == (Double {
            bits: 0x40D3_8800_0000_0000,
        }),
        double_field(cmd, "duration"@) is None ==> plan.duration == (Double {
            bits: 0x3FF0_0000_0000_0000,
        }),
        double_field(cmd, "tail_s"@) is None ==> plan.tail_s == (Double {
            bits: 0x3FE0_0000_0000_0000,
        }),
        uint_field(cmd, "n_harmonics"@) is None ==> plan.n_harmonics == 5,
        uint_field(cmd, "window_len"@) is None ==> plan.window_len == 4096,
        double_field(cmd, "level_dbfs"@) is None && (Double {
            bits: 0xC018_0000_0000_0000,
        }).below(l.cfg.drive_max_dbfs) ==> plan.level_dbfs == (Double {
            bits: 0xC018_0000_0000_0000,
        }),
{
}

/// The ports of a plot are the ones that are played to and captured from, each
/// in its place; a plot is refused where either has none.
pub proof fn a_plot_uses_the_configured_ports(ports: PlotPorts, l: &Launch, name: Seq<char>)
    requires
        ports.resolved(l),
    ensures
        output_of(l.cfg@, texts(l.playback@)) == Ok::<Seq<char>, Seq<char>>(ports.out_port@),
        input_of(l.cfg@, texts(l.capture@)) == Ok::<Seq<char>, Seq<char>>(ports.in_port@),
        plot_refusal(l, name) is None <==> l.blocked(name) is None,
        l.blocked(name) matches Some(why) ==> plot_refusal(l, name) == Some(refusal_reply(why)),
{
}

/// A plot without an output port is refused for the output, and one without
/// an input port for the input.
pub proof fn a_plot_without_ports_is_refused(l: &Launch, name: Seq<char>)
    requires
        l.blocked(name) is None,
    ensures
        plot_refusal(l, name) is None <==> output_of(l.cfg@, texts(l.playback@)) is Ok && input_of(
            l.cfg@,
            texts(l.capture@),
        ) is Ok,
        output_of(l.cfg@, texts(l.playback@)) matches Err(why) ==> plot_refusal(l, name) == Some(
            refusal_reply(why),
        ),
        output_of(l.cfg@, texts(l.playback@)) is Ok ==> (input_of(l.cfg@, texts(l.capture@)) matches
            Err(why) ==> plot_refusal(l, name) == Some(refusal_reply(why))),
{
}

/// The replies to accepted plots name the ports each as what it is, and the
/// levels as they will be driven.
pub proof fn accepted_plots_are_told_by_name(
    plot: PlotPlan,
    level: PlotLevelPlan,
    ir: PlotIrPlan,
)
    ensures
        plot_reply(&plot).field("ok"@) == Some(JsonV::Bool(true)),
        plot_reply(&plot).field("out_port"@) == Some(JsonV::Str(plot.ports.out_port@)),
        plot_reply(&plot).field("in_port"@) == Some(JsonV::Str(plot.ports.in_port@)),
        plot_reply(&plot).field("level_dbfs"@) == Some(finite_or_null(plot.level_dbfs)),
        plot_level_reply(&level).field("ok"@) == Some(JsonV::Bool(true)),
        plot_level_reply(&level).field("out_port"@) == Some(JsonV::Str(level.ports.out_port@)),
        plot_level_reply(&level).field("in_port"@) == Some(JsonV::Str(level.ports.in_port@)),
        level.start_dbfs.below(level.ceiling_dbfs) ==> plot_level_reply(&level).field(
            "start_dbfs"@,
        ) == Some(finite_or_null(level.start_dbfs)),
        level.ceiling_dbfs.below(level.start_dbfs) ==> plot_level_reply(&level).field(
            "start_dbfs"@,
        ) == Some(finite_or_null(level.ceiling_dbfs)),
        level.stop_dbfs.below(level.ceiling_dbfs) ==> plot_level_reply(&level).field("stop_dbfs"@)
            == Some(finite_or_null(level.stop_dbfs)),
        level.ceiling_dbfs.below(level.stop_dbfs) ==> plot_level_reply(&level).field("stop_dbfs"@)
            == Some(finite_or_null(level.ceiling_dbfs)),
        plot_ir_reply(&ir).field("ok"@) == Some(JsonV::Bool(true)),
        plot_ir_reply(&ir).field("out_port"@) == Some(JsonV::Str(ir.ports.out_port@)),
        plot_ir_reply(&ir).field("level_dbfs"@) == Some(finite_or_null(ir.level_dbfs)),
{
    fields_read_back();
    reveal_strlit("ok");
    reveal_strlit("out_port");
    reveal_strlit("in_port");
    reveal_strlit("level_dbfs");
    reveal_strlit("start_dbfs");
    reveal_strlit("stop_dbfs");
    assert("ok"@.len() == 2);
    assert("out_port"@.len() == 8);
    assert("in_port"@.len() == 7);
    assert("level_dbfs"@.len() == 10);
    assert("start_dbfs"@.len() == 10);
    assert("stop_dbfs"@.len() == 9);
    assert("level_dbfs"@[0] != "start_dbfs"@[0]);
}

/// A run plays one tone for each frequency, or each level, in the given order:
/// a frequency plot always at its one level, a level plot always at its one
/// frequency and never above the ceiling.
pub proof fn each_tone_has_its_place(
    freqs: Seq<Double>,
    levels: Seq<Double>,
    at_hz: Double,
    at_dbfs: Double,
    ceiling: Double,
    i: int,
)
    ensures
        frequency_tones(freqs, at_dbfs).len() == freqs.len(),
        level_tones(at_hz, levels, ceiling).len() == levels.len(),
        0 <= i < freqs.len() ==> frequency_tones(freqs, at_dbfs)[i].freq_hz == freqs[i]
            && frequency_tones(freqs, at_dbfs)[i].level_dbfs == at_dbfs,
        0 <= i < levels.len() ==> level_tones(at_hz, levels, ceiling)[i].freq_hz == at_hz && (
        !ceiling.nan() ==> level_tones(at_hz, levels, ceiling)[i].level_dbfs.at_most(ceiling)) && (
        levels[i].below(ceiling) ==> level_tones(at_hz, levels, ceiling)[i].level_dbfs
            == levels[i]),
{
}

/// The range of a band report lies within the sweep, from no less than 1 Hz to
/// no more than the ceiling.
pub proof fn bands_lie_within_the_sweep(start_hz: Double, stop_hz: Double, ceiling_hz: Double)
    requires
        !start_hz.nan(),
        !stop_hz.nan(),
        !ceiling_hz.nan(),
        start_hz.at_most(stop_hz),
    ensures
        ({
            let (low, high) = band_ends(start_hz, stop_hz, ceiling_hz);
            let one_hz = Double { bits: 0x3FF0_0000_0000_0000 };
            &&& one_hz.at_most(low) && start_hz.at_most(low)
            &&& low == start_hz || low == one_hz
            &&& high.at_most(ceiling_hz) && high.at_most(stop_hz)
            &&& stop_hz.below(ceiling_hz) && start_hz.below(stop_hz) ==> high == stop_hz
            &&& ceiling_hz.below(stop_hz) ==> high == ceiling_hz
        }),
{
}

/// The frames that end a run tell the points that were published and the
/// xruns that were crossed, each under its own name; a band frame tells its
/// centres and its levels.
pub proof fn a_run_is_told_by_name(
    cmd: Seq<char>,
    published: u64,
    crossed: u32,
    bpo: u64,
    class: Seq<char>,
    centres: Seq<Double>,
    levels: Seq<Double>,
)
    ensures
        complete_frame_of(published, crossed).field("type"@) == Some(
            JsonV::Str("measurement/frequency_response/complete"@),
        ),
        complete_frame_of(published, crossed).field("cmd"@) == Some(JsonV::Str("plot"@)),
        complete_frame_of(published, crossed).field("n_points"@) == Some(JsonV::Uint(published)),
        complete_frame_of(published, crossed).field("xruns"@) == Some(
            JsonV::Uint(crossed as u64),
        ),
        run_done_of(cmd, published, crossed).field("cmd"@) == Some(JsonV::Str(cmd)),
        run_done_of(cmd, published, crossed).field("n_points"@) == Some(JsonV::Uint(published)),
        run_done_of(cmd, published, crossed).field("xruns"@) == Some(JsonV::Uint(crossed as u64)),
        spectrum_bands_of(bpo, class, centres, levels).field("cmd"@) == Some(JsonV::Str("plot"@)),
        spectrum_bands_of(bpo, class, centres, levels).field("bpo"@) == Some(JsonV::Uint(bpo)),
        spectrum_bands_of(bpo, class, centres, levels).field("class"@) == Some(JsonV::Str(class)),
        spectrum_bands_of(bpo, class, centres, levels).field("centres_hz"@) == Some(
            JsonV::Arr(double_views(centres)),
        ),
        spectrum_bands_of(bpo, class, centres, levels).field("levels_dbfs"@) == Some(
            JsonV::Arr(double_views(levels)),
        ),
{
    fields_read_back();
    reveal_strlit("type");
    reveal_strlit("cmd");
    reveal_strlit("n_points");
    reveal_strlit("xruns");
    reveal_strlit("bpo");
    reveal_strlit("class");
    reveal_strlit("centres_hz");
    reveal_strlit("levels_dbfs");
    assert("type"@.len() == 4);
    assert("cmd"@.len() == 3);
    assert("n_points"@.len() == 8);
    assert("xruns"@.len() == 5);
    assert("bpo"@.len() == 3);
    assert("class"@.len() == 5);
    assert("centres_hz"@.len() == 10);
    assert("levels_dbfs"@.len() == 11);
    assert("cmd"@[0] != "bpo"@[0]);
    assert("xruns"@[0] != "class"@[0]);
}

} // verus!
