//! `monitor_spectrum`: the request, the per-tick bookkeeping and the
//! reconnect decisions of the live monitor.
use vstd::prelude::*;

use crate::busy::{blocker, busy_text, check_busy, CommandGroups};
use crate::calibration::Calibration;
use crate::channel::{cadence, lf_band_enabled, lf_recompute_every, ChannelState, Integrator};
use crate::config::{Config, ConfigV};
use crate::double::Double;
use crate::json::{
    fields_read_back, finite_or_null, finite_single_or_null, Json, JsonV, opt_text, str_views,
    u32_views, views,
};
use crate::mode::Mode;
use crate::ports::{out_of_range, port_at};
use crate::reconnect::{backoff_ms, ReconnectState};
use crate::settings::{
    fft_n_ok, fft_n_refusal, interval_ok, ok, ok_reply, valid_fft_n, valid_interval, Integration,
    MonitorParams, Settings,
};
use crate::text::{dec, decimal, texts};
use crate::wire::{double_field, get_double, get_uint, refusal_reply, refuse, uint_field};

verus! {

/// One tone of a fake stimulus.
#[derive(Clone, Copy, Debug, PartialEq, Eq, Structural)]
pub struct FakeTone {
    pub freq_hz: Double,
    pub level_dbfs: Double,
}

/// An accepted `monitor_spectrum` request.
pub struct MonitorPlan {
    pub freq_hz: Double,
    pub amplitude: Double,
    pub fake_tones: Option<Vec<FakeTone>>,
    pub fake_noise_dbfs: Option<Double>,
    pub params: MonitorParams,
    pub channels: Vec<u32>,
    pub in_ports: Vec<String>,
}

/// The default tone, 1 kHz.
pub const DEFAULT_FREQ: u64 = 0x408F_4000_0000_0000;

/// The tones of an array; an item without both numbers is passed over.
pub open spec fn tones_of(items: Seq<JsonV>) -> Seq<FakeTone>
    decreases items.len(),
{
    if items.len() == 0 {
        Seq::empty()
    } else {
        let before = tones_of(items.drop_last());
        match (
            double_field(items.last(), "freq_hz"@),
            double_field(items.last(), "level_dbfs"@),
        ) {
            (Some(freq_hz), Some(level_dbfs)) => before.push(FakeTone { freq_hz, level_dbfs }),
            _ => before,
        }
    }
}

/// The fake tones of a request, if it lists any.
pub open spec fn fake_tones_of(cmd: JsonV) -> Option<Seq<FakeTone>> {
    match cmd.field("fake_tones"@) {
        Some(v) => match v.arr_of() {
            Some(items) => Some(tones_of(items)),
            None => None,
        },
        None => None,
    }
}

fn read_tones(items: &Vec<Json>) -> (r: Vec<FakeTone>)
    ensures
        r@ == tones_of(views(items@)),
{
    let ghost all = views(items@);
    let mut out: Vec<FakeTone> = Vec::new();
    let mut i: usize = 0;
    assert(all.take(0) =~= Seq::empty());
    while i < items.len()
        invariant
            i <= items.len(),
            all == views(items@),
            out@ == tones_of(all.take(i as int)),
        decreases items.len() - i,
    {
        proof {
            assert(all.take(i + 1).drop_last() =~= all.take(i as int));
            assert(all.take(i + 1).last() == items@[i as int]@);
        }
        match (get_double(&items[i], "freq_hz"), get_double(&items[i], "level_dbfs")) {
            (Some(freq_hz), Some(level_dbfs)) => out.push(FakeTone { freq_hz, level_dbfs }),
            _ => {},
        }
        i = i + 1;
    }
    assert(all.take(i as int) =~= all);
    out
}

/// The low 32 bits of the unsigned integers of an array; other items are
/// passed over.
pub open spec fn low_words(items: Seq<JsonV>) -> Seq<u32>
    decreases items.len(),
{
    if items.len() == 0 {
        Seq::empty()
    } else {
        let before = low_words(items.drop_last());
        match items.last().uint_of() {
            Some(n) => before.push((n % 0x1_0000_0000) as u32),
            None => before,
        }
    }
}

/// The channels that a monitor request lists, or the configured input when it
/// lists none.
pub open spec fn monitored(cmd: JsonV, cfg: ConfigV) -> Seq<u32> {
    let listed = match cmd.field("channels"@) {
        Some(v) => match v.arr_of() {
            Some(items) => low_words(items),
            None => Seq::empty(),
        },
        None => Seq::empty(),
    };
    if listed.len() > 0 {
        listed
    } else {
        seq![cfg.input_channel]
    }
}

fn read_channels(cmd: &Json, cfg: &Config) -> (r: Vec<u32>)
    ensures
        r@ == monitored(cmd@, cfg@),
{
    let mut out: Vec<u32> = Vec::new();
    match cmd.get("channels") {
        Some(v) => match v.as_array() {
            Some(items) => {
                let ghost all = views(items@);
                let mut i: usize = 0;
                assert(all.take(0) =~= Seq::empty());
                while i < items.len()
                    invariant
                        i <= items.len(),
                        all == views(items@),
                        out@ == low_words(all.take(i as int)),
                    decreases items.len() - i,
                {
                    proof {
                        assert(all.take(i + 1).drop_last() =~= all.take(i as int));
                        assert(all.take(i + 1).last() == items@[i as int]@);
                    }
                    match items[i].as_uint() {
                        Some(n) => out.push((n % 0x1_0000_0000) as u32),
                        None => {},
                    }
                    i = i + 1;
                }
                assert(all.take(i as int) =~= all);
            },
            None => {},
        },
        None => {},
    }
    if out.len() == 0 {
        out.push(cfg.input_channel);
        assert(out@ =~= seq![cfg.input_channel]);
    }
    out
}

/// The capture ports of a list of channels by index, up to the first that has
/// none.
pub open spec fn capture_ports_of(capture: Seq<Seq<char>>, channels: Seq<u32>) -> Result<
    Seq<Seq<char>>,
    Seq<char>,
>
    decreases channels.len(),
{
    if channels.len() == 0 {
        Ok(Seq::empty())
    } else {
        match capture_ports_of(capture, channels.drop_last()) {
            Err(e) => Err(e),
            Ok(before) => match port_at("capture"@, channels.last(), capture) {
                Err(e) => Err(e),
                Ok(p) => Ok(before.push(p)),
            },
        }
    }
}

proof fn capture_ports_stop_at_first_error(capture: Seq<Seq<char>>, channels: Seq<u32>, n: int)
    requires
        0 <= n <= channels.len(),
        capture_ports_of(capture, channels.take(n)) is Err,
    ensures
        capture_ports_of(capture, channels.take(channels.len() as int)) == capture_ports_of(
            capture,
            channels.take(n),
        ),
    decreases channels.len() - n,
{
    if n < channels.len() {
        assert(channels.take(n + 1).drop_last() =~= channels.take(n));
        capture_ports_stop_at_first_error(capture, channels, n + 1);
    }
}

/// The capture ports of a list of channels; one bad channel fails the whole
/// list.
fn resolve_inputs(capture: &Vec<String>, channels: &Vec<u32>) -> (r: Result<Vec<String>, String>)
    ensures
        match r {
            Ok(v) => capture_ports_of(texts(capture@), channels@) == Ok::<
                Seq<Seq<char>>,
                Seq<char>,
            >(texts(v@)),
            Err(e) => capture_ports_of(texts(capture@), channels@) == Err::<
                Seq<Seq<char>>,
                Seq<char>,
            >(e@),
        },
{
    let ghost all = channels@;
    let ghost list = texts(capture@);
    let mut out: Vec<String> = Vec::new();
    let mut i: usize = 0;
    proof {
        assert(all.take(0) =~= Seq::empty());
        assert(texts(out@) =~= Seq::empty());
    }
    while i < channels.len()
        invariant
            i <= channels.len(),
            all == channels@,
            list == texts(capture@),
            capture_ports_of(list, all.take(i as int)) == Ok::<Seq<Seq<char>>, Seq<char>>(
                texts(out@),
            ),
        decreases channels.len() - i,
    {
        let ch: u32 = channels[i];
        proof {
            assert(all.take(i + 1).drop_last() =~= all.take(i as int));
            assert(all.take(i + 1).last() == ch);
        }
        if (ch as u64) < capture.len() as u64 {
            let ghost before = out@;
            out.push(capture[ch as usize].clone());
            assert(texts(out@) =~= texts(before).push(list[ch as int]));
        } else {
            proof {
                capture_ports_stop_at_first_error(list, all, i + 1);
                assert(all.take(all.len() as int) =~= all);
            }
            return Err(out_of_range("capture", ch, capture));
        }
        i = i + 1;
    }
    assert(all.take(i as int) =~= all);
    Ok(out)
}

/// The interval of a request.
pub open spec fn interval_of(cmd: JsonV, defaults: MonitorParams) -> Double {
    match double_field(cmd, "interval"@) {
        Some(x) => x,
        None => defaults.interval,
    }
}

/// The FFT length of a request: the low 32 bits of the integer it names.
pub open spec fn fft_n_of(cmd: JsonV, defaults: MonitorParams) -> u32 {
    match uint_field(cmd, "fft_n"@) {
        Some(n) => (n % 0x1_0000_0000) as u32,
        None => defaults.fft_n,
    }
}

/// The first reason to refuse a monitor request: another worker, an
/// unreadable configuration, the interval, the FFT length, a channel without
/// a port.
pub open spec fn monitor_refusal(
    groups: &CommandGroups,
    running: Seq<Seq<char>>,
    cfg_fault: Option<Seq<char>>,
    cmd: JsonV,
    cfg: ConfigV,
    capture: Seq<Seq<char>>,
    defaults: MonitorParams,
) -> Option<JsonV> {
    match blocker(groups, running, "monitor_spectrum"@) {
        Some(name) => Some(refusal_reply(busy_text(name))),
        None => match cfg_fault {
            Some(e) => Some(refusal_reply(e)),
            None => if !interval_ok(interval_of(cmd, defaults)) {
                Some(refusal_reply("interval must be > 0 and <= 60"@))
            } else if !fft_n_ok(fft_n_of(cmd, defaults)) {
                Some(fft_n_refusal())
            } else {
                match capture_ports_of(capture, monitored(cmd, cfg)) {
                    Err(e) => Some(refusal_reply(e)),
                    Ok(_) => None,
                }
            },
        },
    }
}

impl MonitorPlan {
    /// The plan is what the request asks for.
    pub open spec fn answers(
        &self,
        cmd: JsonV,
        cfg: ConfigV,
        capture: Seq<Seq<char>>,
        defaults: MonitorParams,
    ) -> bool {
        &&& self.freq_hz == (match double_field(cmd, "freq_hz"@) {
            Some(x) => x,
            None => Double { bits: DEFAULT_FREQ },
        })
        &&& self.amplitude == (match double_field(cmd, "amplitude"@) {
            Some(x) => x,
            None => Double { bits: 0 },
        })
        &&& match self.fake_tones {
            Some(v) => fake_tones_of(cmd) == Some(v@),
            None => fake_tones_of(cmd) is None,
        }
        &&& self.fake_noise_dbfs == double_field(cmd, "fake_noise_dbfs"@)
        &&& self.params == (MonitorParams {
            interval: interval_of(cmd, defaults),
            fft_n: fft_n_of(cmd, defaults),
            lf_fft_n: defaults.lf_fft_n,
            crossover_hz: defaults.crossover_hz,
            active: true,
        })
        &&& self.channels@ == monitored(cmd, cfg)
        &&& capture_ports_of(capture, monitored(cmd, cfg)) == Ok::<Seq<Seq<char>>, Seq<char>>(
            texts(self.in_ports@),
        )
    }
}

/// `monitor_spectrum`, up to the start of its worker: the plan, or the first
/// refusal.
pub fn monitor_spectrum(
    groups: &CommandGroups,
    running: &Vec<String>,
    cfg_fault: &Option<String>,
    cmd: &Json,
    cfg: &Config,
    capture: &Vec<String>,
    defaults: MonitorParams,
) -> (r: Result<MonitorPlan, Json>)
    ensures
        match r {
            Err(e) => monitor_refusal(
                groups,
                texts(running@),
                opt_text(*cfg_fault),
                cmd@,
                cfg@,
                texts(capture@),
                defaults,
            ) == Some(e@),
            Ok(p) => {
                &&& monitor_refusal(
                    groups,
                    texts(running@),
                    opt_text(*cfg_fault),
                    cmd@,
                    cfg@,
                    texts(capture@),
                    defaults,
                ) is None
                &&& p.answers(cmd@, cfg@, texts(capture@), defaults)
            },
        },
{
    match check_busy(groups, running, "monitor_spectrum") {
        Some(msg) => return Err(refuse(msg.as_str())),
        None => {},
    }
    match cfg_fault {
        Some(e) => return Err(refuse(e.as_str())),
        None => {},
    }
    let freq_hz: Double = match get_double(cmd, "freq_hz") {
        Some(x) => x,
        None => Double::new(DEFAULT_FREQ),
    };
    let amplitude: Double = match get_double(cmd, "amplitude") {
        Some(x) => x,
        None => Double::new(0),
    };
    let fake_tones: Option<Vec<FakeTone>> = match cmd.get("fake_tones") {
        Some(v) => match v.as_array() {
            Some(items) => Some(read_tones(items)),
            None => None,
        },
        None => None,
    };
    let interval: Double = match get_double(cmd, "interval") {
        Some(x) => x,
        None => defaults.interval,
    };
    let fft_n: u32 = match get_uint(cmd, "fft_n") {
        Some(n) => (n % 0x1_0000_0000) as u32,
        None => defaults.fft_n,
    };
    if !valid_interval(interval) {
        return Err(refuse("interval must be > 0 and <= 60"));
    }
    if !valid_fft_n(fft_n) {
        return Err(refuse("fft_n must be power of 2 in [256, 131072]"));
    }
    let channels = read_channels(cmd, cfg);
    let in_ports = match resolve_inputs(capture, &channels) {
        Ok(p) => p,
        Err(e) => return Err(refuse(e.as_str())),
    };
    Ok(
        MonitorPlan {
            freq_hz,
            amplitude,
            fake_tones,
            fake_noise_dbfs: get_double(cmd, "fake_noise_dbfs"),
            params: MonitorParams {
                interval,
                fft_n,
                lf_fft_n: defaults.lf_fft_n,
                crossover_hz: defaults.crossover_hz,
                active: true,
            },
            channels,
            in_ports,
        },
    )
}

/// The refusal of the first calibration that could not be read.
pub open spec fn first_unread(loads: Seq<Result<Option<Calibration>, String>>) -> Option<JsonV>
    decreases loads.len(),
{
    if loads.len() == 0 {
        None
    } else {
        match loads[0] {
            Err(e) => Some(refusal_reply(e@)),
            Ok(_) => first_unread(loads.drop_first()),
        }
    }
}

/// The first reason not to start the worker of an accepted request: the
/// calibration of a channel that cannot be read, in the order of the channels,
/// then the audio engine.
pub open spec fn start_refusal(
    loads: Seq<Result<Option<Calibration>, String>>,
    engine_fault: Option<Seq<char>>,
) -> Option<JsonV> {
    match first_unread(loads) {
        Some(e) => Some(e),
        None => match engine_fault {
            Some(e) => Some(refusal_reply(e)),
            None => None,
        },
    }
}

/// Takes the calibrations that were read, one per channel, or refuses the
/// monitor. `engine_fault` is why no audio engine can be made, if none can; it
/// is consulted only once every calibration was read.
pub fn monitor_inputs(
    loads: Vec<Result<Option<Calibration>, String>>,
    engine_fault: &Option<String>,
) -> (r: Result<Vec<Option<Calibration>>, Json>)
    ensures
        match r {
            Err(e) => start_refusal(loads@, opt_text(*engine_fault)) == Some(e@),
            Ok(cals) => {
                &&& start_refusal(loads@, opt_text(*engine_fault)) is None
                &&& cals@.len() == loads@.len()
                &&& forall|i: int|
                    0 <= i < cals@.len() ==> loads@[i] == Ok::<Option<Calibration>, String>(
                        #[trigger] cals@[i],
                    )
            },
        },
{
    let ghost all = loads@;
    let mut rest = loads;
    let mut cals: Vec<Option<Calibration>> = Vec::new();
    assert(all.subrange(0, all.len() as int) =~= all);
    while rest.len() > 0
        invariant
            all == loads@,
            cals.len() + rest.len() == all.len(),
            rest@ == all.subrange(cals.len() as int, all.len() as int),
            first_unread(all) == first_unread(rest@),
            forall|k: int|
                0 <= k < cals.len() ==> all[k] == Ok::<Option<Calibration>, String>(#[trigger] cals@[k]),
        decreases rest.len(),
    {
        let ghost before = rest@;
        let load = rest.remove(0);
        proof {
            assert(load == before[0]);
            assert(rest@ =~= before.drop_first());
            assert(rest@ =~= all.subrange(cals.len() + 1, all.len() as int));
        }
        match load {
            Ok(cal) => cals.push(cal),
            Err(e) => return Err(refuse(e.as_str())),
        }
    }
    match engine_fault {
        Some(e) => Err(refuse(e.as_str())),
        None => Ok(cals),
    }
}

/// The LF smoothing time constant and overlap as the reply quotes them: 250
/// ms and 90 percent.
pub const LF_AVG_TAU_MS: u64 = 0x406F_4000_0000_0000;

pub const LF_OVERLAP_PCT: u64 = 0x4056_8000_0000_0000;

/// The reply to an accepted request, once its worker runs on `backend`.
pub open spec fn monitor_reply(plan: &MonitorPlan, backend: Seq<char>) -> JsonV {
    ok_reply().with(
        "in_port"@,
        JsonV::Str(
            if plan.in_ports.len() > 0 {
                plan.in_ports@[0]@
            } else {
                Seq::empty()
            },
        ),
    ).with("in_ports"@, JsonV::Arr(str_views(texts(plan.in_ports@)))).with(
        "channels"@,
        JsonV::Arr(u32_views(plan.channels@)),
    ).with("lf_fft_n"@, JsonV::Uint(plan.params.lf_fft_n as u64)).with(
        "crossover_hz"@,
        finite_single_or_null(plan.params.crossover_hz),
    ).with("lf_avg_tau_ms"@, finite_or_null(Double { bits: LF_AVG_TAU_MS })).with(
        "lf_overlap_pct"@,
        finite_or_null(Double { bits: LF_OVERLAP_PCT }),
    ).with("backend"@, JsonV::Str(backend))
}

/// The reply to an accepted request, once its worker runs on `backend`.
pub fn monitor_started(plan: &MonitorPlan, backend: &str) -> (r: Json)
    ensures
        r@ == monitor_reply(plan, backend@),
{
    let first = if plan.in_ports.len() > 0 {
        plan.in_ports[0].clone()
    } else {
        String::new()
    };
    ok().with("in_port", Json::Str(first)).with(
        "in_ports",
        Json::strings(&plan.in_ports),
    ).with("channels", Json::uints(&plan.channels)).with(
        "lf_fft_n",
        Json::Uint(plan.params.lf_fft_n as u64),
    ).with("crossover_hz", Json::single(plan.params.crossover_hz)).with(
        "lf_avg_tau_ms",
        Json::float(Double::new(LF_AVG_TAU_MS)),
    ).with("lf_overlap_pct", Json::float(Double::new(LF_OVERLAP_PCT))).with(
        "backend",
        Json::string(backend),
    )
}

/// What the worker plays on a fake backend. Real hardware is never driven by
/// this command.
#[derive(Debug)]
pub enum Stimulus {
    /// A real backend: nothing.
    Nothing,
    Tones(Vec<FakeTone>),
    Noise { level_dbfs: Double },
    Tone { freq_hz: Double, amplitude: Double },
}

impl Stimulus {
    /// The stimulus is that of the plan.
    pub open spec fn plays(&self, plan: &MonitorPlan, fake: bool) -> bool {
        &&& !fake ==> *self is Nothing
        &&& fake ==> match plan.fake_tones {
            Some(v) => *self matches Stimulus::Tones(t) && t@ == v@,
            None => match plan.fake_noise_dbfs {
                Some(level_dbfs) => *self == (Stimulus::Noise { level_dbfs }),
                None => *self == (Stimulus::Tone {
                    freq_hz: plan.freq_hz,
                    amplitude: plan.amplitude,
                }),
            },
        }
    }
}

/// The stimulus of a plan: listed tones before noise before the single tone,
/// and only on a fake backend.
pub fn stimulus(plan: &MonitorPlan, fake: bool) -> (r: Stimulus)
    ensures
        r.plays(plan, fake),
{
    if !fake {
        return Stimulus::Nothing;
    }
    match &plan.fake_tones {
        Some(v) => {
            let mut out: Vec<FakeTone> = Vec::new();
            let mut i: usize = 0;
            assert(v@.take(0) =~= Seq::empty());
            while i < v.len()
                invariant
                    i <= v.len(),
                    out@ == v@.take(i as int),
                decreases v.len() - i,
            {
                out.push(v[i]);
                assert(v@.take(i + 1) =~= v@.take(i as int).push(v@[i as int]));
                i = i + 1;
            }
            assert(v@.take(i as int) =~= v@);
            Stimulus::Tones(out)
        },
        None => match plan.fake_noise_dbfs {
            Some(level_dbfs) => Stimulus::Noise { level_dbfs },
            None => Stimulus::Tone { freq_hz: plan.freq_hz, amplitude: plan.amplitude },
        },
    }
}

/// What a monitor worker keeps between ticks.
pub struct MonitorWorker {
    pub frame_idx: u64,
    pub integration: Integration,
    pub channels: Vec<ChannelState>,
}

/// The shortest and longest capture block of the ring-buffered modes: 16 ms
/// and 100 ms.
pub const TICK_MIN: u64 = 0x3F90_624D_D2F1_A9FC;

pub const TICK_MAX: u64 = 0x3FB9_9999_9999_999A;

/// What one tick does.
#[derive(Clone, Copy, Debug, PartialEq, Eq, Structural)]
pub struct TickPlan {
    pub frame_idx: u64,
    pub mode: Mode,
    pub params: MonitorParams,
    pub lf_enabled: bool,
    pub lf_every: u32,
    pub mic_corr_enabled: bool,
    pub tick_secs: Double,
    /// Every integrator is dropped: the time integration changed.
    pub drop_integrators: bool,
    /// Every integrator that is kept starts over: they are Leq integrators,
    /// and a reset was asked for.
    pub restart_integrators: bool,
    /// Every loudness meter starts over.
    pub reset_loudness: bool,
}

/// The settings with the one-shot resets consumed.
pub open spec fn consumed(s: Settings) -> Settings {
    Settings { leq_reset_request: false, loudness_reset_request: false, ..s }
}

impl TickPlan {
    /// The plan is that of the tick after `frame_idx`, under the settings.
    pub open spec fn begins(
        self,
        frame_idx: u64,
        integration: Integration,
        s: Settings,
        hops: Double,
    ) -> bool {
        &&& self.frame_idx == (if frame_idx < u64::MAX {
            frame_idx + 1
        } else {
            0
        })
        &&& self.mode == s.mode
        &&& self.params == s.monitor
        &&& self.lf_enabled == (s.monitor.lf_fft_n > s.monitor.fft_n)
        &&& self.lf_every == cadence(hops)
        &&& self.mic_corr_enabled == s.mic_correction_enabled
        &&& self.tick_secs == s.monitor.interval.clamped(
            Double { bits: TICK_MIN },
            Double { bits: TICK_MAX },
        )
        &&& self.drop_integrators == (integration != s.integration)
        &&& self.restart_integrators == (s.leq_reset_request && s.integration == Integration::Leq
            && integration == Integration::Leq)
        &&& self.reset_loudness == s.loudness_reset_request
    }
}

/// A channel with its integrator and the time of its last levels replaced.
pub open spec fn reintegrated(
    a: &ChannelState,
    b: &ChannelState,
    integrator: Option<Integrator>,
    last: Option<u64>,
) -> bool {
    &&& b.same_identity(a)
    &&& b.current_freq == a.current_freq
    &&& b.reconnect == a.reconnect
    &&& b.cwt_ring == a.cwt_ring
    &&& b.cqt_ring == a.cqt_ring
    &&& b.reass_ring == a.reass_ring
    &&& b.fft_ring == a.fft_ring
    &&& b.lf == a.lf
    &&& b.integrator == integrator
    &&& b.last_frac_ts == last
}

/// Begin a tick: one frame number for all channels, the live settings read
/// once, the one-shot resets consumed. A changed time integration drops every
/// integrator; a Leq reset forgets when levels last came. `hops` is the LF
/// overlap hop over the interval.
pub fn begin_tick(w: &mut MonitorWorker, s: &mut Settings, hops: Double) -> (r: TickPlan)
    ensures
        r.begins(old(w).frame_idx, old(w).integration, *old(s), hops),
        final(w).frame_idx == r.frame_idx,
        final(w).integration == old(s).integration,
        *final(s) == consumed(*old(s)),
        final(w).channels.len() == old(w).channels.len(),
        forall|i: int|
            0 <= i < old(w).channels.len() ==> reintegrated(
                &old(w).channels@[i],
                &#[trigger] final(w).channels@[i],
                if old(w).integration != old(s).integration {
                    None
                } else {
                    old(w).channels@[i].integrator
                },
                if old(w).integration != old(s).integration || old(s).leq_reset_request {
                    None
                } else {
                    old(w).channels@[i].last_frac_ts
                },
            ),
{
    let switched: bool = w.integration != s.integration;
    let leq: bool = s.leq_reset_request;
    let mut i: usize = 0;
    while i < w.channels.len()
        invariant
            i <= w.channels.len(),
            w.channels.len() == old(w).channels.len(),
            w.frame_idx == old(w).frame_idx,
            w.integration == old(w).integration,
            switched == (old(w).integration != old(s).integration),
            leq == old(s).leq_reset_request,
            *s == *old(s),
            forall|k: int|
                i <= k < old(w).channels.len() ==> #[trigger] w.channels@[k]
                    == old(w).channels@[k],
            forall|k: int|
                0 <= k < i ==> reintegrated(
                    &old(w).channels@[k],
                    &#[trigger] w.channels@[k],
                    if switched {
                        None
                    } else {
                        old(w).channels@[k].integrator
                    },
                    if switched || leq {
                        None
                    } else {
                        old(w).channels@[k].last_frac_ts
                    },
                ),
        decreases w.channels.len() - i,
    {
        assert(w.channels@[i as int] == old(w).channels@[i as int]);
        if switched {
            w.channels[i].integrator = None;
        }
        if switched || leq {
            w.channels[i].last_frac_ts = None;
        }
        i = i + 1;
    }
    w.integration = s.integration;
    w.frame_idx = if w.frame_idx < u64::MAX {
        w.frame_idx + 1
    } else {
        0
    };
    let loudness: bool = s.loudness_reset_request;
    s.leq_reset_request = false;
    s.loudness_reset_request = false;
    TickPlan {
        frame_idx: w.frame_idx,
        mode: s.mode,
        params: s.monitor,
        lf_enabled: lf_band_enabled(s.monitor.lf_fft_n, s.monitor.fft_n),
        lf_every: lf_recompute_every(hops),
        mic_corr_enabled: s.mic_correction_enabled,
        tick_secs: s.monitor.interval.clamp_to(Double::new(TICK_MIN), Double::new(TICK_MAX)),
        drop_integrators: switched,
        restart_integrators: leq && !switched && w.integration == Integration::Leq,
        reset_loudness: loudness,
    }
}

/// What the worker does after trying to reconnect a channel.
pub enum ReconnectAction {
    /// Connected: drop what was captured meanwhile and go on.
    Proceed,
    /// Publish the frame and end the worker.
    GiveUp { frame: Json },
    /// Publish the frame, if any, sleep, and go on to the next channel.
    Retry { frame: Option<Json>, sleep_ms: u64 },
}

/// An error frame of the monitor.
pub open spec fn monitor_error(message: Seq<char>) -> JsonV {
    JsonV::obj().with("cmd"@, JsonV::Str("monitor_spectrum"@)).with(
        "message"@,
        JsonV::Str(message),
    )
}

/// An error frame of the monitor.
pub fn error_frame(message: &str) -> (r: Json)
    ensures
        r@ == monitor_error(message@),
{
    Json::obj().with("cmd", Json::string("monitor_spectrum")).with(
        "message",
        Json::string(message),
    )
}

/// The message of a monitor that gives up.
pub open spec fn give_up_text(channel: u32, outage_s: nat, error: Seq<char>) -> Seq<char> {
    "ch"@ + dec(channel as nat) + " gave up after "@ + dec(outage_s)
        + "s of reconnect failures: "@ + error
}

/// The message of a failed reconnect.
pub open spec fn retry_text(channel: u32, failures: u32, error: Seq<char>) -> Seq<char> {
    "reconnect ch"@ + dec(channel as nat) + " (failures: "@ + dec(failures as nat) + "): "@ + error
}

/// Nanoseconds in a second.
pub const NS_PER_S: u64 = 1_000_000_000;

impl ReconnectAction {
    /// The action follows an attempt at `now` on a channel in state `before`,
    /// and leaves it in state `after`.
    pub open spec fn follows(
        &self,
        channel: u32,
        before: ReconnectState,
        attempt: Result<(), String>,
        now: u64,
        after: ReconnectState,
    ) -> bool {
        match attempt {
            Ok(_) => *self is Proceed && after.is_clear(),
            Err(e) => {
                let st = before.failed(now);
                if st.exhausted(now) {
                    &&& after == st
                    &&& *self matches ReconnectAction::GiveUp { frame } && frame@ == monitor_error(
                        give_up_text(
                            channel,
                            (crate::reconnect::elapsed(now, st.first_failure_at->0) / (
                            NS_PER_S as int)) as nat,
                            e@,
                        ),
                    )
                } else if st.error_due(now) {
                    &&& after == (ReconnectState { last_error_pub_at: Some(now), ..st })
                    &&& *self matches ReconnectAction::Retry { frame: Some(f), sleep_ms } && f@
                        == monitor_error(
                        retry_text(channel, st.consecutive_failures, e@),
                    ) && sleep_ms == backoff_ms(st.consecutive_failures as int)
                } else {
                    &&& after == st
                    &&& *self matches ReconnectAction::Retry { frame: None, sleep_ms } && sleep_ms
                        == backoff_ms(st.consecutive_failures as int)
                }
            },
        }
    }
}

/// Decide after a reconnect attempt at `now`: a success forgets the outage; a
/// failure is counted, ends the worker once the outage has lasted long enough,
/// and is otherwise reported at most once a second and backed off.
pub fn reconnect_step(ch: &mut ChannelState, attempt: &Result<(), String>, now: u64) -> (r:
    ReconnectAction)
    ensures
        final(ch).same_identity(old(ch)),
        final(ch).current_freq == old(ch).current_freq,
        final(ch).cwt_ring == old(ch).cwt_ring,
        final(ch).cqt_ring == old(ch).cqt_ring,
        final(ch).reass_ring == old(ch).reass_ring,
        final(ch).fft_ring == old(ch).fft_ring,
        final(ch).lf == old(ch).lf,
        final(ch).integrator == old(ch).integrator,
        final(ch).last_frac_ts == old(ch).last_frac_ts,
        r.follows(old(ch).channel, old(ch).reconnect, *attempt, now, final(ch).reconnect),
{
    let e = match attempt {
        Ok(_) => {
            ch.reconnect.note_success();
            return ReconnectAction::Proceed;
        },
        Err(e) => e,
    };
    ch.reconnect.note_failure(now);
    let channel = decimal(ch.channel as u64);
    if ch.reconnect.should_give_up(now) {
        let outage: u64 = match ch.reconnect.first_failure_at {
            Some(t0) => if now >= t0 {
                (now - t0) / NS_PER_S
            } else {
                0
            },
            None => 0,
        };
        let text = "ch".to_owned().concat(channel.as_str()).concat(" gave up after ").concat(
            decimal(outage).as_str(),
        ).concat("s of reconnect failures: ").concat(e.as_str());
        return ReconnectAction::GiveUp { frame: error_frame(text.as_str()) };
    }
    let failures: u32 = ch.reconnect.consecutive_failures;
    let frame = if ch.reconnect.should_emit_error(now) {
        let text = "reconnect ch".to_owned().concat(channel.as_str()).concat(
            " (failures: ",
        ).concat(decimal(failures as u64).as_str()).concat("): ").concat(e.as_str());
        Some(error_frame(text.as_str()))
    } else {
        None
    };
    ReconnectAction::Retry { frame, sleep_ms: ch.reconnect.backoff() }
}

/// Whether a tick ends with a sleep up to the interval: only the FFT mode
/// does, and only when the tick was shorter.
pub fn sleeps_to_interval(mode: Mode, elapsed: Double, interval: Double) -> (r: bool)
    ensures
        r == (mode == Mode::Fft && elapsed.below(interval)),
{
    !mode.paces_itself() && elapsed.lt(interval)
}

/// End a monitor that was stopped: it is no longer active, and the frame says
/// that it is done.
pub fn monitor_done(s: &mut Settings, backend: &str) -> (r: Json)
    ensures
        *final(s) == (Settings {
            monitor: MonitorParams { active: false, ..old(s).monitor },
            ..*old(s)
        }),
        r@ == JsonV::obj().with("cmd"@, JsonV::Str("monitor_spectrum"@)).with(
            "backend"@,
            JsonV::Str(backend@),
        ),
{
    let mut p: MonitorParams = s.monitor;
    p.active = false;
    s.monitor = p;
    Json::obj().with("cmd", Json::string("monitor_spectrum")).with(
        "backend",
        Json::string(backend),
    )
}

/// One channel without a port refuses the whole monitor: where the list is
/// accepted, each channel listens to the capture port of its own index.
pub proof fn one_bad_channel_refuses_the_monitor(capture: Seq<Seq<char>>, channels: Seq<u32>)
    ensures
        match capture_ports_of(capture, channels) {
            Ok(ports) => {
                &&& ports.len() == channels.len()
                &&& forall|i: int|
                    0 <= i < channels.len() ==> (#[trigger] channels[i]) < capture.len()
                        && ports[i] == capture[channels[i] as int]
            },
            Err(_) => exists|i: int|
                0 <= i < channels.len() && (#[trigger] channels[i]) >= capture.len(),
        },
    decreases channels.len(),
{
    if channels.len() > 0 {
        let before = channels.drop_last();
        let last = channels.len() - 1;
        one_bad_channel_refuses_the_monitor(capture, before);
        match capture_ports_of(capture, before) {
            Ok(_) => {
                assert(channels[last] == channels.last());
                assert forall|i: int| 0 <= i < channels.len() && capture_ports_of(
                    capture,
                    channels,
                ) is Ok implies (#[trigger] channels[i]) < capture.len() && capture_ports_of(
                    capture,
                    channels,
                )->Ok_0[i] == capture[channels[i] as int] by {
                    if i < last {
                        assert(before[i] == channels[i]);
                    }
                }
            },
            Err(_) => {
                let i = choose|i: int|
                    0 <= i < before.len() && (#[trigger] before[i]) >= capture.len();
                assert(channels[i] == before[i]);
            },
        }
    }
}

/// What a monitor request names is what is monitored, each number under its
/// own name; what it does not name is 1 kHz without a level, the live interval
/// and FFT length, and the configured input. The monitor then counts as
/// active.
pub proof fn a_monitor_is_as_requested(
    plan: MonitorPlan,
    cmd: JsonV,
    cfg: ConfigV,
    capture: Seq<Seq<char>>,
    defaults: MonitorParams,
)
    requires
        plan.answers(cmd, cfg, capture, defaults),
    ensures
        double_field(cmd, "freq_hz"@) matches Some(x) ==> plan.freq_hz == x,
        double_field(cmd, "freq_hz"@) is None ==> plan.freq_hz == (Double {
            bits: 0x408F_4000_0000_0000,
        }),
        double_field(cmd, "amplitude"@) matches Some(x) ==> plan.amplitude == x,
        double_field(cmd, "amplitude"@) is None ==> plan.amplitude == (Double { bits: 0 }),
        plan.fake_noise_dbfs == double_field(cmd, "fake_noise_dbfs"@),
        double_field(cmd, "interval"@) matches Some(x) ==> plan.params.interval == x,
        double_field(cmd, "interval"@) is None ==> plan.params.interval == defaults.interval,
        uint_field(cmd, "fft_n"@) matches Some(n) ==> (n <= u32::MAX ==> plan.params.fft_n == n),
        uint_field(cmd, "fft_n"@) is None ==> plan.params.fft_n == defaults.fft_n,
        plan.params.lf_fft_n == defaults.lf_fft_n,
        plan.params.crossover_hz == defaults.crossover_hz,
        plan.params.active,
        plan.channels@.len() > 0,
        plan.in_ports@.len() == plan.channels@.len(),
        forall|i: int|
            0 <= i < plan.channels@.len() ==> plan.channels@[i] < capture.len() && (
            #[trigger] plan.in_ports@[i])@ == capture[plan.channels@[i] as int],
        cmd.field("channels"@) is None ==> plan.channels@ == seq![cfg.input_channel],
{
    one_bad_channel_refuses_the_monitor(capture, plan.channels@);
    assert forall|i: int| 0 <= i < plan.channels@.len() implies plan.channels@[i] < capture.len()
        && (#[trigger] plan.in_ports@[i])@ == capture[plan.channels@[i] as int] by {
        assert(texts(plan.in_ports@)[i] == plan.in_ports@[i]@);
        assert(plan.channels@[i] < capture.len());
    }
}

/// A monitor is refused for the first thing that is wrong: another worker, the
/// configuration, the interval, the FFT length, a channel without a port.
pub proof fn a_monitor_is_refused_for_its_first_fault(
    groups: &CommandGroups,
    running: Seq<Seq<char>>,
    fault: Option<Seq<char>>,
    cmd: JsonV,
    cfg: ConfigV,
    capture: Seq<Seq<char>>,
    defaults: MonitorParams,
)
    ensures
        ({
            let refusal = monitor_refusal(groups, running, fault, cmd, cfg, capture, defaults);
            let busy = blocker(groups, running, "monitor_spectrum"@);
            let interval = interval_of(cmd, defaults);
            let paced = (Double { bits: 0 }).below(interval) && interval.at_most(
                Double { bits: 0x404E_0000_0000_0000 },
            );
            let sized = fft_n_ok(fft_n_of(cmd, defaults));
            let ports = capture_ports_of(capture, monitored(cmd, cfg));
            &&& refusal is None <==> busy is None && fault is None && paced && sized && ports is Ok
            &&& busy matches Some(w) ==> refusal == Some(refusal_reply(busy_text(w)))
            &&& busy is None ==> (fault matches Some(e) ==> refusal == Some(refusal_reply(e)))
            &&& busy is None && fault is None && !paced ==> refusal == Some(
                refusal_reply("interval must be > 0 and <= 60"@),
            )
            &&& busy is None && fault is None && paced && !sized ==> refusal == Some(
                fft_n_refusal(),
            )
            &&& busy is None && fault is None && paced && sized ==> (ports matches Err(e)
                ==> refusal == Some(refusal_reply(e)))
        }),
{
}

/// A listed tone that has both numbers adds that tone, each number as what it
/// is; an item that lacks one adds none. A listed channel adds its index, and
/// what is no index adds none.
pub proof fn listed_items_are_taken_in_order(items: Seq<JsonV>, item: JsonV)
    ensures
        ({
            let before = tones_of(items);
            let after = tones_of(items.push(item));
            let hz = double_field(item, "freq_hz"@);
            let level = double_field(item, "level_dbfs"@);
            &&& hz is None || level is None ==> after == before
            &&& hz is Some && level is Some ==> after == before.push(after.last())
                && after.last().freq_hz == hz->0 && after.last().level_dbfs == level->0
        }),
        ({
            let before = low_words(items);
            let after = low_words(items.push(item));
            &&& item.uint_of() is None ==> after == before
            &&& item.uint_of() matches Some(n) ==> after.len() == before.len() + 1
                && after.drop_last() == before && (n <= u32::MAX ==> after.last() == n)
        }),
{
    assert(items.push(item).drop_last() =~= items);
    if let Some(n) = item.uint_of() {
        assert(low_words(items).push((n % 0x1_0000_0000) as u32).drop_last() =~= low_words(items));
    }
}

/// A monitor does not start with a calibration that cannot be read: the first
/// of them is told, before any fault of the engine.
pub proof fn an_unreadable_calibration_is_told_first(
    loads: Seq<Result<Option<Calibration>, String>>,
    fault: Option<Seq<char>>,
    i: int,
)
    ensures
        start_refusal(loads, fault) is None <==> fault is None && forall|k: int|
            0 <= k < loads.len() ==> (#[trigger] loads[k]) is Ok,
        0 <= i < loads.len() && loads[i] is Err && (forall|k: int|
            0 <= k < i ==> (#[trigger] loads[k]) is Ok) ==> start_refusal(loads, fault) == Some(
            refusal_reply(loads[i]->Err_0@),
        ),
        (forall|k: int| 0 <= k < loads.len() ==> (#[trigger] loads[k]) is Ok) ==> (fault matches
            Some(e) ==> start_refusal(loads, fault) == Some(refusal_reply(e))),
    decreases loads.len(),
{
    if loads.len() > 0 {
        let rest = loads.drop_first();
        an_unreadable_calibration_is_told_first(rest, fault, i - 1);
        assert forall|k: int| 0 <= k < rest.len() implies rest[k] == (#[trigger] loads[k + 1]) by {}
        if forall|k: int| 0 <= k < loads.len() ==> (#[trigger] loads[k]) is Ok {
            assert(loads[0] is Ok);
            assert forall|k: int| 0 <= k < rest.len() implies (#[trigger] rest[k]) is Ok by {
                assert(loads[k + 1] is Ok);
            }
        }
        if loads[0] is Ok && (forall|k: int| 0 <= k < rest.len() ==> (#[trigger] rest[k]) is Ok) {
            assert forall|k: int| 0 <= k < loads.len() implies (#[trigger] loads[k]) is Ok by {
                if k > 0 {
                    assert(rest[k - 1] is Ok);
                }
            }
        }
        if 0 < i < loads.len() && (forall|k: int| 0 <= k < i ==> (#[trigger] loads[k]) is Ok) {
            assert(loads[0] is Ok);
            assert forall|k: int| 0 <= k < i - 1 implies (#[trigger] rest[k]) is Ok by {
                assert(loads[k + 1] is Ok);
            }
        }
    }
}

/// The reply to a monitor names the ports and channels, the first port on its
/// own too, and the LF band's parameters, each under its own name.
pub proof fn a_monitor_is_told_by_name(plan: MonitorPlan, backend: Seq<char>)
    ensures
        ({
            let reply = monitor_reply(&plan, backend);
            &&& reply.field("ok"@) == Some(JsonV::Bool(true))
            &&& plan.in_ports@.len() > 0 ==> reply.field("in_port"@) == Some(
                JsonV::Str(plan.in_ports@[0]@),
            )
            &&& reply.field("in_ports"@) == Some(JsonV::Arr(str_views(texts(plan.in_ports@))))
            &&& reply.field("channels"@) == Some(JsonV::Arr(u32_views(plan.channels@)))
            &&& reply.field("lf_fft_n"@) == Some(JsonV::Uint(plan.params.lf_fft_n as u64))
            &&& reply.field("crossover_hz"@) == Some(
                finite_single_or_null(plan.params.crossover_hz),
            )
            &&& reply.field("lf_avg_tau_ms"@) == Some(
                finite_or_null(Double { bits: 0x406F_4000_0000_0000 }),
            )
            &&& reply.field("lf_overlap_pct"@) == Some(
                finite_or_null(Double { bits: 0x4056_8000_0000_0000 }),
            )
            &&& reply.field("backend"@) == Some(JsonV::Str(backend))
        }),
{
    fields_read_back();
    reveal_strlit("ok");
    reveal_strlit("in_port");
    reveal_strlit("in_ports");
    reveal_strlit("channels");
    reveal_strlit("lf_fft_n");
    reveal_strlit("crossover_hz");
    reveal_strlit("lf_avg_tau_ms");
    reveal_strlit("lf_overlap_pct");
    reveal_strlit("backend");
    assert("ok"@.len() == 2);
    assert("in_port"@.len() == 7);
    assert("in_ports"@.len() == 8);
    assert("channels"@.len() == 8);
    assert("lf_fft_n"@.len() == 8);
    assert("crossover_hz"@.len() == 12);
    assert("lf_avg_tau_ms"@.len() == 13);
    assert("lf_overlap_pct"@.len() == 14);
    assert("backend"@.len() == 7);
    assert("in_port"@[0] != "backend"@[0]);
    assert("in_ports"@[0] != "channels"@[0]);
    assert("in_ports"@[0] != "lf_fft_n"@[0]);
    assert("channels"@[0] != "lf_fft_n"@[0]);
}

/// Real hardware is never driven by a monitor. A fake backend plays the tones
/// that were listed, else the noise that was asked for, else the single tone.
pub proof fn a_monitor_never_drives_hardware(played: Stimulus, plan: MonitorPlan, fake: bool)
    requires
        played.plays(&plan, fake),
    ensures
        played is Nothing <==> !fake,
        fake ==> (played is Tones <==> plan.fake_tones is Some),
        fake && plan.fake_tones is None ==> (played is Noise <==> plan.fake_noise_dbfs is Some),
        played matches Stimulus::Tones(tones) ==> plan.fake_tones is Some && tones@
            == plan.fake_tones->0@,
        played matches Stimulus::Noise { level_dbfs } ==> plan.fake_noise_dbfs == Some(level_dbfs),
        played matches Stimulus::Tone { freq_hz, amplitude } ==> freq_hz == plan.freq_hz
            && amplitude == plan.amplitude,
{
}

/// A tick reads the live settings as they are and consumes the two one-shot
/// requests, and nothing else of the settings. It captures for 16 to 100 ms;
/// the LF band runs where its FFT is the longer one; integrators are dropped
/// where the integration changed, and restarted only where Leq goes on and a
/// reset was asked for.
pub proof fn a_tick_reads_the_live_settings(
    tick: TickPlan,
    last: u64,
    integration: Integration,
    s: Settings,
    hops: Double,
)
    requires
        tick.begins(last, integration, s, hops),
    ensures
        last < u64::MAX ==> tick.frame_idx == last + 1,
        last == u64::MAX ==> tick.frame_idx == 0,
        tick.mode == s.mode,
        tick.params == s.monitor,
        tick.mic_corr_enabled == s.mic_correction_enabled,
        tick.lf_enabled <==> s.monitor.fft_n < s.monitor.lf_fft_n,
        tick.lf_every == cadence(hops),
        ({
            let shortest = Double { bits: 0x3F90_624D_D2F1_A9FC };
            let longest = Double { bits: 0x3FB9_9999_9999_999A };
            &&& !s.monitor.interval.nan() ==> shortest.at_most(tick.tick_secs)
                && tick.tick_secs.at_most(longest)
            &&& shortest.at_most(s.monitor.interval) && s.monitor.interval.at_most(longest)
                ==> tick.tick_secs == s.monitor.interval
        }),
        tick.drop_integrators <==> s.integration != integration,
        tick.restart_integrators ==> s.leq_reset_request && s.integration == Integration::Leq
            && !tick.drop_integrators,
        s.leq_reset_request && s.integration == Integration::Leq && !tick.drop_integrators
            ==> tick.restart_integrators,
        tick.reset_loudness == s.loudness_reset_request,
        !consumed(s).leq_reset_request && !consumed(s).loudness_reset_request,
        consumed(s) == (Settings {
            leq_reset_request: false,
            loudness_reset_request: false,
            mode: s.mode,
            cwt_sigma: s.cwt_sigma,
            cwt_n_scales: s.cwt_n_scales,
            ioct_bpo: s.ioct_bpo,
            weighting: s.weighting,
            integration: s.integration,
            mic_correction_enabled: s.mic_correction_enabled,
            monitor: s.monitor,
        }),
{
}

/// A reconnect that succeeds forgets the outage. One that fails is counted;
/// the worker ends once the outage has lasted 30 seconds, and is told so;
/// until then it tries again after the back-off, and reports at most once a
/// second.
pub proof fn an_outage_is_retried_for_30_seconds(
    action: ReconnectAction,
    channel: u32,
    before: ReconnectState,
    attempt: Result<(), String>,
    now: u64,
    after: ReconnectState,
)
    requires
        action.follows(channel, before, attempt, now, after),
    ensures
        action is Proceed <==> attempt is Ok,
        attempt is Ok ==> after.consecutive_failures == 0 && after.first_failure_at is None
            && after.last_error_pub_at is None,
        attempt is Err ==> after.first_failure_at is Some && (before.first_failure_at is Some
            ==> after.first_failure_at == before.first_failure_at),
        attempt is Err && before.consecutive_failures < u32::MAX ==> after.consecutive_failures
            == before.consecutive_failures + 1,
        attempt is Err ==> (action is GiveUp <==> now - after.first_failure_at->0
            >= 30_000_000_000),
        action matches ReconnectAction::Retry { frame, sleep_ms } ==> {
            &&& sleep_ms == backoff_ms(after.consecutive_failures as int)
            &&& frame is Some <==> before.last_error_pub_at is None || now
                - before.last_error_pub_at->0 >= 1_000_000_000
            &&& frame is Some ==> after.last_error_pub_at == Some(now)
            &&& frame is None ==> after.last_error_pub_at == before.last_error_pub_at
        },
        attempt matches Err(e) ==> (action matches ReconnectAction::GiveUp { frame } ==> (
        frame@.field("message"@) matches Some(JsonV::Str(m)) && e@.is_suffix_of(m))
            && frame@.field("cmd"@) == Some(JsonV::Str("monitor_spectrum"@))),
        attempt matches Err(e) ==> (action matches ReconnectAction::Retry {
            frame: Some(frame),
            ..
        } ==> (frame@.field("message"@) matches Some(JsonV::Str(m)) && e@.is_suffix_of(m))
            && frame@.field("cmd"@) == Some(JsonV::Str("monitor_spectrum"@))),
{
    fields_read_back();
    reveal_strlit("cmd");
    reveal_strlit("message");
    assert("cmd"@.len() == 3);
    assert("message"@.len() == 7);
    if let Err(e) = attempt {
        let st = before.failed(now);
        let a = give_up_text(
            channel,
            (crate::reconnect::elapsed(now, st.first_failure_at->0) / (NS_PER_S as int)) as nat,
            e@,
        );
        let b = retry_text(channel, st.consecutive_failures, e@);
        assert(a.subrange(a.len() - e@.len(), a.len() as int) =~= e@);
        assert(b.subrange(b.len() - e@.len(), b.len() as int) =~= e@);
    }
}

/// Replacing the integrator of a channel touches neither its identity, its
/// connection nor any of its rings.
pub proof fn an_integrator_is_replaced_alone(
    a: &ChannelState,
    b: &ChannelState,
    given: Option<Integrator>,
    at: Option<u64>,
)
    requires
        reintegrated(a, b, given, at),
    ensures
        *b == (ChannelState {
            channel: a.channel,
            in_port: a.in_port,
            spl_offset: a.spl_offset,
            dbu_offset: a.dbu_offset,
            curve_loaded: a.curve_loaded,
            current_freq: a.current_freq,
            reconnect: a.reconnect,
            cwt_ring: a.cwt_ring,
            cqt_ring: a.cqt_ring,
            reass_ring: a.reass_ring,
            fft_ring: a.fft_ring,
            lf: a.lf,
            integrator: given,
            last_frac_ts: at,
        }),
{
}

} // verus!
