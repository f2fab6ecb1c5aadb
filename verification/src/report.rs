//! Measurement reports: what a plot archives of itself.
use vstd::prelude::*;

use crate::calibration::CalibrationSnapshot;
use crate::double::Double;
use crate::json::{fields_read_back, Json, JsonV, uint_views};
use crate::mic::MicCorrection;
use crate::plot::{FrequencyResponsePoint, PlotIrPlan, PlotPlan, PlotRun};
use crate::settings::{Integration, Weighting};
use crate::tau::{TauConditions, TauEntry};
use crate::text::{dash_colons, dashed, dec, decimal, join, joined, texts};

verus! {

/// How a measurement was made.
#[derive(Debug, Clone, Copy)]
pub enum MeasurementMethod {
    SteppedSine { n_points: u64 },
    SweptSine { f1_hz: Double, f2_hz: Double, duration_s: Double },
}

/// What was played.
#[derive(Debug, Clone, Copy)]
pub struct StimulusParams {
    pub sample_rate_hz: u32,
    pub f_start_hz: Double,
    pub f_stop_hz: Double,
    pub level_dbfs: Double,
    pub n_points: u64,
}

/// How captures were integrated.
#[derive(Debug)]
pub struct IntegrationParams {
    pub duration_s: Double,
    pub window: String,
    pub n_averages: Option<u64>,
}

/// A latency that a report applies.
#[derive(Debug)]
pub struct MeasuredLatency {
    pub tau_s: Double,
    pub measured_at: String,
    pub method: String,
    pub backend: String,
    pub sample_rate_hz: u32,
    pub period_size: Option<u32>,
    pub output_port: String,
    pub input_port: String,
}

/// The interface latency of a capture, or why there is none.
#[derive(Debug)]
pub enum InterfaceLatency {
    Measured(MeasuredLatency),
    Unavailable { reason: String },
}

/// The processing that was active for a whole report.
#[derive(Debug, Clone, Copy)]
pub struct ProcessingChain {
    pub weighting: Weighting,
    pub smoothing_bpo: Option<u32>,
    pub time_integration: Integration,
    pub mic_correction_applied: bool,
}

/// The window that a payload was cut with.
#[derive(Debug)]
pub struct GateParams {
    pub gate_start_s: Double,
    pub gate_length_s: Double,
    pub window_kind: String,
    pub f_low_hz: Double,
}

/// One point of a gated response.
#[derive(Debug, Clone, Copy)]
pub struct GatedFrequencyResponsePoint {
    pub freq_hz: Double,
    pub magnitude_db: Double,
    pub phase_deg: Double,
}

/// The impulse responses of a sweep.
#[derive(Debug)]
pub struct ImpulseResponse {
    pub sample_rate_hz: u32,
    pub f1_hz: Double,
    pub f2_hz: Double,
    pub duration_s: Double,
    pub linear_ir: Vec<Double>,
    pub harmonics: Vec<Vec<Double>>,
    pub noise_tail_start_s: Option<Double>,
}

/// What a report holds.
#[derive(Debug)]
pub enum MeasurementData {
    FrequencyResponse { points: Vec<FrequencyResponsePoint> },
    SpectrumBands { bpo: u32, class: String, centres_hz: Vec<Double>, levels_dbfs: Vec<Double> },
    ImpulseResponse(ImpulseResponse),
    GatedFrequencyResponse { points: Vec<GatedFrequencyResponsePoint> },
}

/// A standard or a paper that a measurement follows.
#[derive(Debug, Clone, Copy, PartialEq, Eq, Structural)]
pub enum Citation {
    /// The harmonic-distortion measurement.
    HarmonicDistortion,
    /// The band filters.
    Filterbank,
    /// The swept-sine measurement of an impulse response.
    SweptSine,
    /// The deconvolution that a gated response rests on.
    Deconvolution,
    /// The gated frequency response.
    GatedResponse,
}

/// One part of a report, with what it follows and the window it was cut with.
#[derive(Debug)]
pub struct MeasurementPayload {
    pub data: MeasurementData,
    pub standard: Vec<Citation>,
    pub gate: Option<GateParams>,
}

/// What every report is stamped with.
#[derive(Debug)]
pub struct ReportStamp {
    pub schema_version: u32,
    pub ac_version: String,
    pub timestamp_utc: String,
}

/// An archived measurement.
#[derive(Debug)]
pub struct MeasurementReport {
    pub schema_version: u32,
    pub ac_version: String,
    pub timestamp_utc: String,
    pub method: MeasurementMethod,
    pub stimulus: StimulusParams,
    pub integration: IntegrationParams,
    pub calibration: Option<CalibrationSnapshot>,
    /// The room temperature, where one is configured.
    pub temperature_c: Option<Double>,
    pub interface_latency: Option<InterfaceLatency>,
    pub data: Vec<MeasurementPayload>,
    pub notes: Option<String>,
    pub processing_chain: ProcessingChain,
}

impl MeasurementReport {
    /// Whether a report bears a stamp.
    pub open spec fn bears(&self, stamp: &ReportStamp) -> bool {
        &&& self.schema_version == stamp.schema_version
        &&& self.ac_version@ == stamp.ac_version@
        &&& self.timestamp_utc@ == stamp.timestamp_utc@
    }

    /// The report is that of a run over the tones of a frequency plot.
    pub open spec fn archives_plot(
        &self,
        plan: &PlotPlan,
        run: PlotRun,
        sr: u32,
        stamp: &ReportStamp,
        calibration: Option<CalibrationSnapshot>,
        temperature_c: Option<Double>,
        chain: ProcessingChain,
    ) -> bool {
        &&& self.bears(stamp)
        &&& self.method == (MeasurementMethod::SteppedSine { n_points: run.n })
        &&& self.stimulus == (StimulusParams {
            sample_rate_hz: sr,
            f_start_hz: plan.start_hz,
            f_stop_hz: plan.stop_hz,
            level_dbfs: plan.level_dbfs,
            n_points: run.n,
        })
        &&& self.integration.duration_s == plan.duration
        &&& self.integration.window@ == "hann"@
        &&& self.integration.n_averages is None
        &&& self.calibration == calibration
        &&& self.temperature_c == temperature_c
        &&& self.interface_latency is None
        &&& self.data@.len() == 1
        &&& self.data@[0].data == (MeasurementData::FrequencyResponse { points: run.points })
        &&& self.data@[0].standard@ == seq![Citation::HarmonicDistortion]
        &&& self.data@[0].gate is None
        &&& self.notes is None
        &&& self.processing_chain == chain
    }

    /// The report is that of the bands of a frequency plot.
    pub open spec fn archives_bands(
        &self,
        plan: &PlotPlan,
        bpo: u64,
        class: Seq<char>,
        centres_hz: Vec<Double>,
        levels_dbfs: Vec<Double>,
        sr: u32,
        stamp: &ReportStamp,
        calibration: Option<CalibrationSnapshot>,
        temperature_c: Option<Double>,
        chain: ProcessingChain,
    ) -> bool {
        &&& self.bears(stamp)
        &&& self.method == (MeasurementMethod::SteppedSine { n_points: centres_hz@.len() as u64 })
        &&& self.stimulus == (StimulusParams {
            sample_rate_hz: sr,
            f_start_hz: plan.start_hz,
            f_stop_hz: plan.stop_hz,
            level_dbfs: plan.level_dbfs,
            n_points: centres_hz@.len() as u64,
        })
        &&& self.integration.duration_s == plan.duration
        &&& self.integration.window@ == "butterworth-bp"@
        &&& self.integration.n_averages is None
        &&& self.calibration == calibration
        &&& self.temperature_c == temperature_c
        &&& self.interface_latency is None
        &&& self.data@.len() == 1
        &&& self.data@[0].gate is None
        &&& self.data@[0].standard@ == seq![Citation::Filterbank]
        &&& self.data@[0].data matches MeasurementData::SpectrumBands {
            bpo: b,
            class: c,
            centres_hz: centres,
            levels_dbfs: levels,
        } && b == bpo % 0x1_0000_0000 && c@ == class && centres == centres_hz && levels
            == levels_dbfs
        &&& self.notes is None
        &&& self.processing_chain == chain
    }

    /// The report is that of an impulse-response sweep.
    pub open spec fn archives_sweep(
        &self,
        plan: &PlotIrPlan,
        sr: u32,
        stamp: &ReportStamp,
        calibration: Option<CalibrationSnapshot>,
        temperature_c: Option<Double>,
        latency: InterfaceLatency,
        mic: MicCorrection,
    ) -> bool {
        &&& self.bears(stamp)
        &&& self.method == (MeasurementMethod::SweptSine {
            f1_hz: plan.f1_hz,
            f2_hz: plan.f2_hz,
            duration_s: plan.duration,
        })
        &&& self.stimulus == (StimulusParams {
            sample_rate_hz: sr,
            f_start_hz: plan.f1_hz,
            f_stop_hz: plan.f2_hz,
            level_dbfs: plan.level_dbfs,
            n_points: 0,
        })
        &&& self.integration.duration_s == plan.duration
        &&& self.integration.window@ == "farina-inverse"@
        &&& self.integration.n_averages is None
        &&& self.calibration == calibration
        &&& self.temperature_c == temperature_c
        &&& self.interface_latency == Some(latency)
        &&& self.processing_chain == (ProcessingChain {
            weighting: Weighting::Off,
            smoothing_bpo: None,
            time_integration: Integration::Off,
            mic_correction_applied: mic.applied(),
        })
    }

    /// The report holds the raw responses and the derived one, each under the
    /// window that it was cut with.
    pub open spec fn holds_responses(
        &self,
        ir: ImpulseResponse,
        ir_gate: GateParams,
        gated: Vec<GatedFrequencyResponsePoint>,
        gated_gate: GateParams,
    ) -> bool {
        &&& self.data@.len() == 2
        &&& self.data@[0].data == MeasurementData::ImpulseResponse(ir)
        &&& self.data@[0].standard@ == seq![Citation::SweptSine]
        &&& self.data@[0].gate == Some(ir_gate)
        &&& self.data@[1].data == (MeasurementData::GatedFrequencyResponse { points: gated })
        &&& self.data@[1].standard@ == seq![Citation::Deconvolution, Citation::GatedResponse]
        &&& self.data@[1].gate == Some(gated_gate)
    }
}

/// A single citation.
fn cited(c: Citation) -> (r: Vec<Citation>)
    ensures
        r@ == seq![c],
{
    let mut all: Vec<Citation> = Vec::new();
    all.push(c);
    assert(all@ =~= seq![c]);
    all
}

/// The chain of a report of stepped tones.
pub open spec fn chain_of(
    weighting: Weighting,
    time_integration: Integration,
    mic: MicCorrection,
) -> ProcessingChain {
    ProcessingChain {
        weighting,
        smoothing_bpo: None,
        time_integration,
        mic_correction_applied: mic.applied(),
    }
}

/// The chain of a report of stepped tones. The curve counts as applied
/// exactly where the points' frames are tagged so.
pub fn chain_at_report(
    weighting: Weighting,
    time_integration: Integration,
    mic: MicCorrection,
) -> (r: ProcessingChain)
    ensures
        r == chain_of(weighting, time_integration, mic),
{
    ProcessingChain {
        weighting,
        smoothing_bpo: None,
        time_integration,
        mic_correction_applied: mic.applies(),
    }
}

/// The report of a frequency plot. A stepped sweep records no arrival, so no
/// latency stands in it.
pub fn plot_report(
    plan: &PlotPlan,
    run: PlotRun,
    sr: u32,
    stamp: &ReportStamp,
    calibration: Option<CalibrationSnapshot>,
    temperature_c: Option<Double>,
    chain: ProcessingChain,
) -> (r: MeasurementReport)
    ensures
        r.archives_plot(plan, run, sr, stamp, calibration, temperature_c, chain),
{
    let n: u64 = run.n;
    let mut data: Vec<MeasurementPayload> = Vec::new();
    data.push(
        MeasurementPayload {
            data: MeasurementData::FrequencyResponse { points: run.points },
            standard: cited(Citation::HarmonicDistortion),
            gate: None,
        },
    );
    MeasurementReport {
        schema_version: stamp.schema_version,
        ac_version: stamp.ac_version.clone(),
        timestamp_utc: stamp.timestamp_utc.clone(),
        method: MeasurementMethod::SteppedSine { n_points: n },
        stimulus: StimulusParams {
            sample_rate_hz: sr,
            f_start_hz: plan.start_hz,
            f_stop_hz: plan.stop_hz,
            level_dbfs: plan.level_dbfs,
            n_points: n,
        },
        integration: IntegrationParams {
            duration_s: plan.duration,
            window: "hann".to_owned(),
            n_averages: None,
        },
        calibration,
        temperature_c,
        interface_latency: None,
        data,
        notes: None,
        processing_chain: chain,
    }
}

/// The report of the bands of a frequency plot.
pub fn bands_report(
    plan: &PlotPlan,
    bpo: u64,
    class: &str,
    centres_hz: Vec<Double>,
    levels_dbfs: Vec<Double>,
    sr: u32,
    stamp: &ReportStamp,
    calibration: Option<CalibrationSnapshot>,
    temperature_c: Option<Double>,
    chain: ProcessingChain,
) -> (r: MeasurementReport)
    ensures
        r.archives_bands(
            plan,
            bpo,
            class@,
            centres_hz,
            levels_dbfs,
            sr,
            stamp,
            calibration,
            temperature_c,
            chain,
        ),
{
    let n: u64 = centres_hz.len() as u64;
    let mut data: Vec<MeasurementPayload> = Vec::new();
    data.push(
        MeasurementPayload {
            data: MeasurementData::SpectrumBands {
                bpo: (bpo % 0x1_0000_0000) as u32,
                class: class.to_owned(),
                centres_hz,
                levels_dbfs,
            },
            standard: cited(Citation::Filterbank),
            gate: None,
        },
    );
    MeasurementReport {
        schema_version: stamp.schema_version,
        ac_version: stamp.ac_version.clone(),
        timestamp_utc: stamp.timestamp_utc.clone(),
        method: MeasurementMethod::SteppedSine { n_points: n },
        stimulus: StimulusParams {
            sample_rate_hz: sr,
            f_start_hz: plan.start_hz,
            f_stop_hz: plan.stop_hz,
            level_dbfs: plan.level_dbfs,
            n_points: n,
        },
        integration: IntegrationParams {
            duration_s: plan.duration,
            window: "butterworth-bp".to_owned(),
            n_averages: None,
        },
        calibration,
        temperature_c,
        interface_latency: None,
        data,
        notes: None,
        processing_chain: chain,
    }
}

/// The file that a report is written to: its time and kind, colons replaced.
pub fn report_file(timestamp: &str, suffix: &str) -> (r: String)
    ensures
        r@ == dashed(timestamp@ + suffix@),
{
    let name = timestamp.to_owned().concat(suffix);
    dash_colons(name.as_str())
}

/// The `measurement/report` frame of a plot of tones, as data.
pub open spec fn plot_report_of(report: JsonV) -> JsonV {
    JsonV::obj().with("type"@, JsonV::Str("measurement/report"@)).with(
        "cmd"@,
        JsonV::Str("plot"@),
    ).with("report"@, report)
}

/// The `measurement/report` frame of a plot of tones, as data.
pub fn plot_report_frame(report: Json) -> (r: Json)
    ensures
        r@ == plot_report_of(report@),
{
    Json::obj().with("type", Json::string("measurement/report")).with(
        "cmd",
        Json::string("plot"),
    ).with("report", report)
}

/// The `measurement/report` frame under its own topic.
pub open spec fn report_frame_of(cmd: Seq<char>, report: JsonV) -> JsonV {
    JsonV::obj().with("cmd"@, JsonV::Str(cmd)).with("report"@, report)
}

/// The `measurement/report` frame under its own topic.
pub fn report_frame(cmd: &str, report: Json) -> (r: Json)
    ensures
        r@ == report_frame_of(cmd@, report@),
{
    Json::obj().with("cmd", Json::string(cmd)).with("report", report)
}

/// Why no latency is known of a pair without a calibration.
pub open spec fn no_calibration_text(device: u32, backend: Seq<char>) -> Seq<char> {
    "no calibration stored for this channel pair \u{2014} run `ac calibrate` with loopback patched to measure \u{3c4} for device "@
        + dec(device as nat) + " / "@ + backend + " backend"@
}

impl InterfaceLatency {
    /// The latency is what the pair's calibration answers.
    pub open spec fn resolves(
        &self,
        looked_up: Option<Result<TauEntry, String>>,
        device: u32,
        backend: Seq<char>,
    ) -> bool {
        match looked_up {
            None => *self matches InterfaceLatency::Unavailable { reason } && reason@
                == no_calibration_text(device, backend),
            Some(Err(refusal)) => *self matches InterfaceLatency::Unavailable { reason } && reason@
                == refusal@,
            Some(Ok(e)) => *self matches InterfaceLatency::Measured(m) && m.tau_s == e.tau_s
                && m.measured_at@ == e.measured_at@ && m.method@ == e.method@ && m.backend@
                == e.conditions.backend@ && m.sample_rate_hz == e.conditions.sample_rate
                && m.period_size == e.conditions.period_size && m.output_port@
                == e.conditions.output_port@ && m.input_port@ == e.conditions.input_port@,
        }
    }
}

/// The latency that was stored for exactly these conditions, or why there is
/// none: `looked_up` is what the pair's calibration answers, where it has
/// one. Nothing is measured here and no near match is taken.
pub fn resolve_tau(looked_up: &Option<Result<TauEntry, String>>, cond: &TauConditions) -> (r:
    InterfaceLatency)
    ensures
        r.resolves(*looked_up, cond.device, cond.backend@),
{
    match looked_up {
        None => {
            let reason = "no calibration stored for this channel pair \u{2014} run `ac calibrate` with loopback patched to measure \u{3c4} for device ".to_owned().concat(
                decimal(cond.device as u64).as_str()).concat(" / ").concat(
                cond.backend.as_str()).concat(" backend");
            InterfaceLatency::Unavailable { reason }
        },
        Some(Err(refusal)) => InterfaceLatency::Unavailable { reason: refusal.clone() },
        Some(Ok(e)) => InterfaceLatency::Measured(
            MeasuredLatency {
                tau_s: e.tau_s,
                measured_at: e.measured_at.clone(),
                method: e.method.clone(),
                backend: e.conditions.backend.clone(),
                sample_rate_hz: e.conditions.sample_rate,
                period_size: e.conditions.period_size,
                output_port: e.conditions.output_port.clone(),
                input_port: e.conditions.input_port.clone(),
            },
        ),
    }
}

/// The orders that are extracted.
pub open spec fn orders_of(n_harmonics: u64) -> u64 {
    if n_harmonics == 0 {
        1
    } else {
        n_harmonics
    }
}

/// The orders that are extracted: at least the linear one.
pub fn harmonic_orders(n_harmonics: u64) -> (r: u64)
    ensures
        r == orders_of(n_harmonics),
{
    if n_harmonics == 0 {
        1
    } else {
        n_harmonics
    }
}

/// The window lengths of an impulse response, in samples.
#[derive(Debug, Clone, Copy)]
pub struct IrGates {
    /// The window of the linear response.
    pub linear: u64,
    /// Where in it the arrival lies.
    pub arrival: u64,
    /// The window of the derived frequency response: the half after the
    /// arrival, at least two samples.
    pub gated: u64,
}

/// The windows, from the length that the linear order got.
pub open spec fn gates_of(linear_len: Option<u64>, requested: u64) -> IrGates {
    let linear = match linear_len {
        Some(n) => n,
        None => requested,
    };
    let arrival = linear / 2;
    IrGates {
        linear,
        arrival,
        gated: if arrival < 2 {
            2
        } else {
            arrival
        },
    }
}

/// The windows, from the length that the linear order got.
pub fn ir_gates(linear_len: Option<u64>, requested: u64) -> (r: IrGates)
    ensures
        r == gates_of(linear_len, requested),
{
    let linear: u64 = match linear_len {
        Some(n) => n,
        None => requested,
    };
    let arrival: u64 = linear / 2;
    let gated: u64 = if arrival < 2 {
        2
    } else {
        arrival
    };
    IrGates { linear, arrival, gated }
}

/// The note on a report whose derived response alone is corrected.
pub const MIC_NOTE: &'static str =
    "mic correction applied to the gated frequency-response payload only; the linear impulse response and harmonics are uncorrected raw capture data";

/// The statements of an impulse-response report: the decay verdict (or why
/// there is none), the clamped gates if any, the structural note on linear
/// deconvolution, and which payload a microphone correction covers.
pub open spec fn ir_statements(
    decay: Result<String, String>,
    clamp: Option<String>,
    deconvolution_note: Seq<char>,
    mic_applied: bool,
) -> Seq<Seq<char>> {
    let verdict = match decay {
        Ok(note) => note@,
        Err(e) => "ISO 18233 \u{a7}6.3.2 tail-decay check could not be evaluated: "@ + e@,
    };
    let clamped = match clamp {
        Some(note) => seq![verdict, note@],
        None => seq![verdict],
    };
    if mic_applied {
        clamped.push(deconvolution_note).push(MIC_NOTE@)
    } else {
        clamped.push(deconvolution_note)
    }
}

/// The notes of an impulse-response report, one statement per line.
pub fn ir_notes(
    decay: &Result<String, String>,
    clamp: &Option<String>,
    deconvolution_note: &str,
    mic_applied: bool,
) -> (r: String)
    ensures
        r@ == joined(ir_statements(*decay, *clamp, deconvolution_note@, mic_applied), "\n"@),
{
    let mut notes: Vec<String> = Vec::new();
    match decay {
        Ok(note) => notes.push(note.clone()),
        Err(e) => notes.push(
            "ISO 18233 \u{a7}6.3.2 tail-decay check could not be evaluated: ".to_owned().concat(
                e.as_str(),
            ),
        ),
    }
    match clamp {
        Some(note) => notes.push(note.clone()),
        None => {},
    }
    notes.push(deconvolution_note.to_owned());
    if mic_applied {
        notes.push(MIC_NOTE.to_owned());
    }
    assert(texts(notes@) =~= ir_statements(*decay, *clamp, deconvolution_note@, mic_applied));
    join(&notes, "\n")
}

/// The `measurement/impulse_response` frame.
pub open spec fn ir_frame_of(
    data: JsonV,
    window_len_requested: u64,
    window_len_used: Seq<u64>,
) -> JsonV {
    JsonV::obj().with("cmd"@, JsonV::Str("plot_ir"@)).with("data"@, data).with(
        "window_len_requested"@,
        JsonV::Uint(window_len_requested),
    ).with("window_len_used"@, JsonV::Arr(uint_views(window_len_used)))
}

/// The `measurement/impulse_response` frame.
pub fn ir_frame(data: Json, window_len_requested: u64, window_len_used: &Vec<u64>) -> (r: Json)
    ensures
        r@ == ir_frame_of(data@, window_len_requested, window_len_used@),
{
    Json::obj().with("cmd", Json::string("plot_ir")).with("data", data).with(
        "window_len_requested",
        Json::Uint(window_len_requested),
    ).with("window_len_used", Json::longs(window_len_used))
}

/// The `done` frame of `plot_ir`.
pub fn ir_done_frame() -> (r: Json)
    ensures
        r@ == JsonV::obj().with("cmd"@, JsonV::Str("plot_ir"@)),
{
    Json::obj().with("cmd", Json::string("plot_ir"))
}

/// The report of an impulse-response sweep: the raw responses under a
/// rectangular gate, and the frequency response derived from the linear one.
/// The correction flag speaks of the derived response only, and the notes say
/// so exactly where it is set.
pub fn ir_report(
    plan: &PlotIrPlan,
    sr: u32,
    stamp: &ReportStamp,
    calibration: Option<CalibrationSnapshot>,
    temperature_c: Option<Double>,
    latency: InterfaceLatency,
    ir: ImpulseResponse,
    ir_gate: GateParams,
    gated: Vec<GatedFrequencyResponsePoint>,
    gated_gate: GateParams,
    decay: &Result<String, String>,
    clamp: &Option<String>,
    deconvolution_note: &str,
    mic: MicCorrection,
) -> (r: MeasurementReport)
    ensures
        r.archives_sweep(plan, sr, stamp, calibration, temperature_c, latency, mic),
        r.holds_responses(ir, ir_gate, gated, gated_gate),
        r.notes matches Some(notes) && notes@ == joined(
            ir_statements(*decay, *clamp, deconvolution_note@, mic.applied()),
            "\n"@,
        ),
{
    let mut data: Vec<MeasurementPayload> = Vec::new();
    data.push(
        MeasurementPayload {
            data: MeasurementData::ImpulseResponse(ir),
            standard: cited(Citation::SweptSine),
            gate: Some(ir_gate),
        },
    );
    let mut standard: Vec<Citation> = cited(Citation::Deconvolution);
    standard.push(Citation::GatedResponse);
    assert(standard@ =~= seq![Citation::Deconvolution, Citation::GatedResponse]);
    data.push(
        MeasurementPayload {
            data: MeasurementData::GatedFrequencyResponse { points: gated },
            standard,
            gate: Some(gated_gate),
        },
    );
    MeasurementReport {
        schema_version: stamp.schema_version,
        ac_version: stamp.ac_version.clone(),
        timestamp_utc: stamp.timestamp_utc.clone(),
        method: MeasurementMethod::SweptSine {
            f1_hz: plan.f1_hz,
            f2_hz: plan.f2_hz,
            duration_s: plan.duration,
        },
        stimulus: StimulusParams {
            sample_rate_hz: sr,
            f_start_hz: plan.f1_hz,
            f_stop_hz: plan.f2_hz,
            level_dbfs: plan.level_dbfs,
            n_points: 0,
        },
        integration: IntegrationParams {
            duration_s: plan.duration,
            window: "farina-inverse".to_owned(),
            n_averages: None,
        },
        calibration,
        temperature_c,
        interface_latency: Some(latency),
        data,
        notes: Some(ir_notes(decay, clamp, deconvolution_note, mic.applies())),
        processing_chain: chain_at_report(Weighting::Off, Integration::Off, mic),
    }
}

/// The report of a frequency plot archives the plot: what was swept and how
/// loud as it was planned, as many points as were published and those points
/// themselves, the calibration and the processing of the run, and the stamp.
/// It holds no latency.
pub proof fn a_plot_report_archives_the_plot(
    report: MeasurementReport,
    plan: PlotPlan,
    run: PlotRun,
    rate: u32,
    stamp: ReportStamp,
    calibration: Option<CalibrationSnapshot>,
    temperature: Option<Double>,
    chain: ProcessingChain,
)
    requires
        report.archives_plot(&plan, run, rate, &stamp, calibration, temperature, chain),
    ensures
        report.schema_version == stamp.schema_version,
        report.ac_version@ == stamp.ac_version@,
        report.timestamp_utc@ == stamp.timestamp_utc@,
        report.method matches MeasurementMethod::SteppedSine { n_points } && n_points == run.n,
        report.stimulus.sample_rate_hz == rate,
        report.stimulus.f_start_hz == plan.start_hz,
        report.stimulus.f_stop_hz == plan.stop_hz,
        report.stimulus.level_dbfs == plan.level_dbfs,
        report.stimulus.n_points == run.n,
        report.integration.duration_s == plan.duration,
        report.calibration == calibration,
        report.temperature_c == temperature,
        report.interface_latency is None,
        report.processing_chain == chain,
        report.data@.len() == 1,
        report.data@[0].data matches MeasurementData::FrequencyResponse { points } && points@
            == run.points@,
        report.data@[0].standard@.contains(Citation::HarmonicDistortion),
        run.wf() ==> (report.data@[0].data matches MeasurementData::FrequencyResponse { points }
            && points@.len() == report.stimulus.n_points),
{
    assert(report.data@[0].standard@[0] == Citation::HarmonicDistortion);
}

/// The report of a plot's bands archives each band with its own centre and
/// level, one point for each centre, under the plot's own stimulus.
pub proof fn a_band_report_archives_the_bands(
    report: MeasurementReport,
    plan: PlotPlan,
    bands: u64,
    class: Seq<char>,
    centres: Vec<Double>,
    levels: Vec<Double>,
    rate: u32,
    stamp: ReportStamp,
    calibration: Option<CalibrationSnapshot>,
    temperature: Option<Double>,
    chain: ProcessingChain,
)
    requires
        report.archives_bands(
            &plan,
            bands,
            class,
            centres,
            levels,
            rate,
            &stamp,
            calibration,
            temperature,
            chain,
        ),
    ensures
        report.schema_version == stamp.schema_version,
        report.ac_version@ == stamp.ac_version@,
        report.timestamp_utc@ == stamp.timestamp_utc@,
        report.stimulus.sample_rate_hz == rate,
        report.stimulus.f_start_hz == plan.start_hz,
        report.stimulus.f_stop_hz == plan.stop_hz,
        report.stimulus.level_dbfs == plan.level_dbfs,
        centres@.len() <= u64::MAX ==> report.stimulus.n_points == centres@.len() && (
        report.method matches MeasurementMethod::SteppedSine { n_points } && n_points
            == centres@.len()),
        report.integration.duration_s == plan.duration,
        report.calibration == calibration,
        report.temperature_c == temperature,
        report.interface_latency is None,
        report.processing_chain == chain,
        report.data@.len() == 1,
        report.data@[0].data matches MeasurementData::SpectrumBands {
            bpo,
            class: told,
            centres_hz,
            levels_dbfs,
        } && centres_hz@ == centres@ && levels_dbfs@ == levels@ && told@ == class && (bands
            <= u32::MAX ==> bpo == bands),
        report.data@[0].standard@.contains(Citation::Filterbank),
{
    assert(report.data@[0].standard@[0] == Citation::Filterbank);
}

/// The report of an impulse-response sweep archives the sweep as it was
/// planned, with the latency that was resolved for it; the raw responses come
/// first, the derived one second, each with its own window.
pub proof fn a_sweep_report_archives_the_sweep(
    report: MeasurementReport,
    plan: PlotIrPlan,
    rate: u32,
    stamp: ReportStamp,
    calibration: Option<CalibrationSnapshot>,
    temperature: Option<Double>,
    latency: InterfaceLatency,
    mic: MicCorrection,
    responses: ImpulseResponse,
    raw_window: GateParams,
    derived: Vec<GatedFrequencyResponsePoint>,
    derived_window: GateParams,
)
    requires
        report.archives_sweep(&plan, rate, &stamp, calibration, temperature, latency, mic),
        report.holds_responses(responses, raw_window, derived, derived_window),
    ensures
        report.schema_version == stamp.schema_version,
        report.ac_version@ == stamp.ac_version@,
        report.timestamp_utc@ == stamp.timestamp_utc@,
        report.method matches MeasurementMethod::SweptSine { f1_hz, f2_hz, duration_s } && f1_hz
            == plan.f1_hz && f2_hz == plan.f2_hz && duration_s == plan.duration,
        report.stimulus.sample_rate_hz == rate,
        report.stimulus.f_start_hz == plan.f1_hz,
        report.stimulus.f_stop_hz == plan.f2_hz,
        report.stimulus.level_dbfs == plan.level_dbfs,
        report.integration.duration_s == plan.duration,
        report.calibration == calibration,
        report.temperature_c == temperature,
        report.interface_latency == Some(latency),
        report.processing_chain.mic_correction_applied <==> mic.curve_loaded && mic.enabled,
        report.processing_chain.weighting == Weighting::Off,
        report.processing_chain.time_integration == Integration::Off,
        report.data@[0].data == MeasurementData::ImpulseResponse(responses),
        report.data@[0].gate == Some(raw_window),
        report.data@[1].data matches MeasurementData::GatedFrequencyResponse { points }
            && points@ == derived@,
        report.data@[1].gate == Some(derived_window),
        report.data@[0].standard@.contains(Citation::SweptSine),
        report.data@[1].standard@.contains(Citation::Deconvolution),
        report.data@[1].standard@.contains(Citation::GatedResponse),
{
    assert(report.data@[0].standard@[0] == Citation::SweptSine);
    assert(report.data@[1].standard@[0] == Citation::Deconvolution);
    assert(report.data@[1].standard@[1] == Citation::GatedResponse);
}

/// The chain of a report tells the weighting and the integration each as what
/// it is, says that the curve was applied exactly where the frames are tagged
/// so, and never tells of smoothing.
pub proof fn a_chain_tells_what_was_applied(
    weighting: Weighting,
    integration: Integration,
    mic: MicCorrection,
)
    ensures
        chain_of(weighting, integration, mic).weighting == weighting,
        chain_of(weighting, integration, mic).time_integration == integration,
        chain_of(weighting, integration, mic).mic_correction_applied <==> mic.curve_loaded
            && mic.enabled,
        chain_of(weighting, integration, mic).smoothing_bpo is None,
{
}

/// A latency is reported exactly where one was found in store, as it was
/// stored, with everything that it was measured under; a refusal is told as it
/// was given.
pub proof fn a_latency_is_reported_as_stored(
    latency: InterfaceLatency,
    looked_up: Option<Result<TauEntry, String>>,
    device: u32,
    backend: Seq<char>,
)
    requires
        latency.resolves(looked_up, device, backend),
    ensures
        latency is Measured <==> looked_up is Some && looked_up->0 is Ok,
        looked_up matches Some(Ok(entry)) ==> latency matches InterfaceLatency::Measured(m)
            && m.tau_s == entry.tau_s && m.measured_at@ == entry.measured_at@ && m.method@
            == entry.method@ && m.backend@ == entry.conditions@.backend && m.sample_rate_hz
            == entry.conditions@.sample_rate && m.period_size == entry.conditions@.period_size
            && m.output_port@ == entry.conditions@.output_port && m.input_port@
            == entry.conditions@.input_port,
        looked_up matches Some(Err(why)) ==> latency matches InterfaceLatency::Unavailable {
            reason,
        } && reason@ == why@,
{
}

/// The windows of a response: the linear one as long as that order got, or as
/// was asked for; the arrival in its middle; and the derived response from
/// there on, which fits in the linear window wherever that has four samples.
pub proof fn windows_begin_at_the_arrival(got: Option<u64>, requested: u64)
    ensures
        ({
            let g = gates_of(got, requested);
            &&& got matches Some(n) ==> g.linear == n
            &&& got is None ==> g.linear == requested
            &&& g.linear - 1 <= 2 * g.arrival <= g.linear
            &&& g.gated >= 2 && g.gated >= g.arrival
            &&& g.linear >= 4 ==> g.gated == g.arrival && g.arrival + g.gated <= g.linear
        }),
{
}

/// At least the linear order is extracted, and as many as are asked for.
pub proof fn the_linear_order_is_always_extracted(asked: u64)
    ensures
        orders_of(asked) >= 1,
        asked >= 1 ==> orders_of(asked) == asked,
        orders_of(asked) <= asked + 1,
{
}

/// The notes of a sweep begin with the decay verdict; each note that was
/// handed in stands among them, and the one on the microphone exactly where
/// the curve was applied, as the last.
pub proof fn the_notes_say_what_was_found(
    decay: Result<String, String>,
    clamp: Option<String>,
    deconvolution: Seq<char>,
    applied: bool,
)
    ensures
        ({
            let notes = ir_statements(decay, clamp, deconvolution, applied);
            let clamped = if clamp is Some {
                1int
            } else {
                0
            };
            &&& notes.len() == 2 + clamped + (if applied {
                1int
            } else {
                0
            })
            &&& decay matches Ok(note) ==> notes[0] == note@
            &&& decay matches Err(e) ==> e@.is_suffix_of(notes[0])
            &&& clamp matches Some(note) ==> notes[1] == note@
            &&& notes[1 + clamped] == deconvolution
            &&& applied ==> notes.last() == MIC_NOTE@
        }),
{
    if let Err(e) = decay {
        let text = "ISO 18233 \u{a7}6.3.2 tail-decay check could not be evaluated: "@ + e@;
        assert(text.subrange(text.len() - e@.len(), text.len() as int) =~= e@);
    }
}

/// The frames of reports and responses carry each part under its own name.
pub proof fn reports_are_told_by_name(
    cmd: Seq<char>,
    report: JsonV,
    data: JsonV,
    asked: u64,
    used: Seq<u64>,
)
    ensures
        plot_report_of(report).field("report"@) == Some(report),
        plot_report_of(report).field("cmd"@) == Some(JsonV::Str("plot"@)),
        plot_report_of(report).field("type"@) == Some(JsonV::Str("measurement/report"@)),
        report_frame_of(cmd, report).field("cmd"@) == Some(JsonV::Str(cmd)),
        report_frame_of(cmd, report).field("report"@) == Some(report),
        ir_frame_of(data, asked, used).field("cmd"@) == Some(JsonV::Str("plot_ir"@)),
        ir_frame_of(data, asked, used).field("data"@) == Some(data),
        ir_frame_of(data, asked, used).field("window_len_requested"@) == Some(JsonV::Uint(asked)),
        ir_frame_of(data, asked, used).field("window_len_used"@) == Some(
            JsonV::Arr(uint_views(used)),
        ),
{
    fields_read_back();
    reveal_strlit("type");
    reveal_strlit("cmd");
    reveal_strlit("report");
    reveal_strlit("data");
    reveal_strlit("window_len_requested");
    reveal_strlit("window_len_used");
    assert("type"@.len() == 4);
    assert("cmd"@.len() == 3);
    assert("report"@.len() == 6);
    assert("data"@.len() == 4);
    assert("window_len_requested"@.len() == 20);
    assert("window_len_used"@.len() == 15);
    assert("type"@[0] != "data"@[0]);
}

} // verus!
