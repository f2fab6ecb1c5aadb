//! The frames that a monitor publishes.
use vstd::prelude::*;

use crate::channel::ChannelState;
use crate::double::{Double, Single};
use crate::json::{
    double_or_null, double_views, fields_read_back, finite_or_null, finite_single_or_null, Json,
    JsonV, single_views, views,
};
use crate::mic::{correction_tag, MicCorrection};
use crate::ring::{newest, tail_of};
use crate::settings::{Integration, Weighting};

verus! {

/// The most samples in a scope frame.
pub const SCOPE_MAX_SAMPLES: usize = 2048;

/// What every frame of one tick shares.
pub struct TickCtx {
    pub n_channels: u32,
    pub sr: u32,
    pub backend: String,
    /// One number per tick, the same for every channel of it.
    pub frame_idx: u64,
    /// The tick-wide capture time, for scope frames.
    pub tick_ts_ns: u64,
    /// The mic-correction toggle, read once per tick.
    pub mic_corr_enabled: bool,
    /// The capture block of the ring-buffered modes, in seconds.
    pub tick_secs: Double,
}

/// What every frame begins with.
pub open spec fn frame_head(kind: Seq<char>, channel: u32, n_channels: u32, sr: u32) -> JsonV {
    JsonV::obj().with("type"@, JsonV::Str(kind)).with(
        "cmd"@,
        JsonV::Str("monitor_spectrum"@),
    ).with("channel"@, JsonV::Uint(channel as u64)).with(
        "n_channels"@,
        JsonV::Uint(n_channels as u64),
    ).with("sr"@, JsonV::Uint(sr as u64))
}

fn head(kind: &str, channel: u32, n_channels: u32, sr: u32) -> (r: Json)
    ensures
        r@ == frame_head(kind@, channel, n_channels, sr),
{
    Json::obj().with("type", Json::string(kind)).with(
        "cmd",
        Json::string("monitor_spectrum"),
    ).with("channel", Json::Uint(channel as u64)).with(
        "n_channels",
        Json::Uint(n_channels as u64),
    ).with("sr", Json::Uint(sr as u64))
}

/// A channel's loudness readings.
#[derive(Clone, Copy, Debug, PartialEq, Eq, Structural)]
pub struct Loudness {
    pub momentary: Double,
    pub short_term: Double,
    pub integrated: Double,
    pub range: Double,
    pub true_peak: Double,
    pub gated_duration_s: Double,
}

/// The loudness frame of a channel.
pub open spec fn loudness_frame_of(
    ch: &ChannelState,
    ctx: &TickCtx,
    l: Loudness,
    mic_correction: Seq<char>,
    ts_ns: u64,
    xruns: u32,
) -> JsonV {
    frame_head("measurement/loudness"@, ch.channel, ctx.n_channels, ctx.sr).with(
        "momentary_lkfs"@,
        finite_or_null(l.momentary),
    ).with("short_term_lkfs"@, finite_or_null(l.short_term)).with(
        "integrated_lkfs"@,
        finite_or_null(l.integrated),
    ).with("lra_lu"@, finite_or_null(l.range)).with(
        "true_peak_dbtp"@,
        finite_or_null(l.true_peak),
    ).with("gated_duration_s"@, finite_or_null(l.gated_duration_s)).with(
        "spl_offset_db"@,
        double_or_null(ch.spl_offset),
    ).with("mic_correction"@, JsonV::Str(mic_correction)).with(
        "timestamp"@,
        JsonV::Uint(ts_ns),
    ).with("xruns"@, JsonV::Uint(xruns as u64))
}

/// The loudness frame of a channel. Levels that are not finite are null, so
/// that the frame stays readable.
pub fn loudness_frame(
    ch: &ChannelState,
    ctx: &TickCtx,
    l: Loudness,
    mic_correction: &str,
    ts_ns: u64,
    xruns: u32,
) -> (r: Json)
    ensures
        r@ == loudness_frame_of(ch, ctx, l, mic_correction@, ts_ns, xruns),
{
    head("measurement/loudness", ch.channel, ctx.n_channels, ctx.sr).with(
        "momentary_lkfs",
        Json::float(l.momentary),
    ).with("short_term_lkfs", Json::float(l.short_term)).with(
        "integrated_lkfs",
        Json::float(l.integrated),
    ).with("lra_lu", Json::float(l.range)).with("true_peak_dbtp", Json::float(l.true_peak)).with(
        "gated_duration_s",
        Json::float(l.gated_duration_s),
    ).with("spl_offset_db", Json::opt_float(ch.spl_offset)).with(
        "mic_correction",
        Json::string(mic_correction),
    ).with("timestamp", Json::Uint(ts_ns)).with("xruns", Json::Uint(xruns as u64))
}

/// The scope frame of a channel.
pub open spec fn scope_frame_of(
    channel: u32,
    ctx: &TickCtx,
    samples: Seq<Single>,
    xruns: u32,
) -> JsonV {
    frame_head("visualize/scope"@, channel, ctx.n_channels, ctx.sr).with(
        "frame_idx"@,
        JsonV::Uint(ctx.frame_idx),
    ).with(
        "samples"@,
        JsonV::Arr(single_views(newest(samples, SCOPE_MAX_SAMPLES as nat))),
    ).with("timestamp"@, JsonV::Uint(ctx.tick_ts_ns)).with("xruns"@, JsonV::Uint(xruns as u64))
}

/// The scope frame of a channel: the newest raw samples of a capture, at most
/// `SCOPE_MAX_SAMPLES` of them.
pub fn scope_frame(channel: u32, ctx: &TickCtx, samples: &Vec<Single>, xruns: u32) -> (r: Json)
    ensures
        r@ == scope_frame_of(channel, ctx, samples@, xruns),
{
    let tail = tail_of(samples, SCOPE_MAX_SAMPLES);
    head("visualize/scope", channel, ctx.n_channels, ctx.sr).with(
        "frame_idx",
        Json::Uint(ctx.frame_idx),
    ).with("samples", Json::singles(&tail)).with("timestamp", Json::Uint(ctx.tick_ts_ns)).with(
        "xruns",
        Json::Uint(xruns as u64),
    )
}

/// A column frame of a ring-buffered mode.
pub open spec fn ring_frame_of(
    ch: &ChannelState,
    ctx: &TickCtx,
    kind: Seq<char>,
    freqs: Seq<Single>,
    mags: Seq<Single>,
    ts_ns: u64,
    xruns: u32,
) -> JsonV {
    frame_head(kind, ch.channel, ctx.n_channels, ctx.sr).with(
        "magnitudes"@,
        JsonV::Arr(single_views(mags)),
    ).with("frequencies"@, JsonV::Arr(single_views(freqs))).with(
        "spl_offset_db"@,
        double_or_null(ch.spl_offset),
    ).with(
        "mic_correction"@,
        JsonV::Str(correction_tag(ch.curve_loaded, ctx.mic_corr_enabled)),
    ).with("timestamp"@, JsonV::Uint(ts_ns)).with("xruns"@, JsonV::Uint(xruns as u64))
}

/// A column frame with its bands per octave, where the mode has them.
pub open spec fn column_frame_of(
    ch: &ChannelState,
    ctx: &TickCtx,
    kind: Seq<char>,
    freqs: Seq<Single>,
    mags: Seq<Single>,
    bpo: Option<u64>,
    ts_ns: u64,
    xruns: u32,
) -> JsonV {
    match bpo {
        Some(n) => ring_frame_of(ch, ctx, kind, freqs, mags, ts_ns, xruns).with(
            "bpo"@,
            JsonV::Uint(n),
        ),
        None => ring_frame_of(ch, ctx, kind, freqs, mags, ts_ns, xruns),
    }
}

/// The column frame of a ring-buffered mode and the loudness frame that goes
/// with it; both carry one timestamp and one mic-correction tag. `bpo` is
/// added to the column frame of the mode that has one.
pub fn ring_frames(
    ch: &ChannelState,
    ctx: &TickCtx,
    kind: &str,
    freqs: &Vec<Single>,
    mags: &Vec<Single>,
    bpo: Option<u64>,
    l: Loudness,
    ts_ns: u64,
    xruns: u32,
) -> (r: (Json, Json))
    ensures
        r.0@ == column_frame_of(ch, ctx, kind@, freqs@, mags@, bpo, ts_ns, xruns),
        r.1@ == loudness_frame_of(
            ch,
            ctx,
            l,
            correction_tag(ch.curve_loaded, ctx.mic_corr_enabled),
            ts_ns,
            xruns,
        ),
{
    let mc: MicCorrection = ch.mic_correction(ctx.mic_corr_enabled);
    let tag = mc.tag();
    let frame = head(kind, ch.channel, ctx.n_channels, ctx.sr).with(
        "magnitudes",
        Json::singles(mags),
    ).with("frequencies", Json::singles(freqs)).with(
        "spl_offset_db",
        Json::opt_float(ch.spl_offset),
    ).with("mic_correction", Json::string(tag)).with("timestamp", Json::Uint(ts_ns)).with(
        "xruns",
        Json::Uint(xruns as u64),
    );
    let frame = match bpo {
        Some(n) => frame.with("bpo", Json::Uint(n)),
        None => frame,
    };
    (frame, loudness_frame(ch, ctx, l, tag, ts_ns, xruns))
}

/// What the two fractional-octave frames share.
pub open spec fn octave_tail(
    frame: JsonV,
    ch: &ChannelState,
    ctx: &TickCtx,
    freqs: Seq<Single>,
    spectrum: Seq<JsonV>,
    ts_ns: u64,
    xruns: u32,
) -> JsonV {
    frame.with("freqs"@, JsonV::Arr(single_views(freqs))).with(
        "spectrum"@,
        JsonV::Arr(spectrum),
    ).with("spl_offset_db"@, double_or_null(ch.spl_offset)).with(
        "mic_correction"@,
        JsonV::Str(correction_tag(ch.curve_loaded, ctx.mic_corr_enabled)),
    ).with("timestamp"@, JsonV::Uint(ts_ns)).with("xruns"@, JsonV::Uint(xruns as u64)).with(
        "backend"@,
        JsonV::Str(ctx.backend@),
    )
}

fn add_octave_tail(
    frame: Json,
    ch: &ChannelState,
    ctx: &TickCtx,
    freqs: &Vec<Single>,
    spectrum: Json,
    ts_ns: u64,
    xruns: u32,
) -> (r: Json)
    requires
        spectrum@ is Arr,
    ensures
        r@ == octave_tail(frame@, ch, ctx, freqs@, spectrum@->Arr_0, ts_ns, xruns),
{
    let mc: MicCorrection = ch.mic_correction(ctx.mic_corr_enabled);
    frame.with("freqs", Json::singles(freqs)).with("spectrum", spectrum).with(
        "spl_offset_db",
        Json::opt_float(ch.spl_offset),
    ).with("mic_correction", Json::string(mc.tag())).with("timestamp", Json::Uint(ts_ns)).with(
        "xruns",
        Json::Uint(xruns as u64),
    ).with("backend", Json::string(ctx.backend.as_str()))
}

/// The fractional-octave frame of a CWT column.
pub open spec fn octave_frame_of(
    ch: &ChannelState,
    ctx: &TickCtx,
    bpo: u32,
    weighting: Weighting,
    freqs: Seq<Single>,
    levels: Seq<Single>,
    ts_ns: u64,
    xruns: u32,
) -> JsonV {
    octave_tail(
        frame_head("visualize/fractional_octave"@, ch.channel, ctx.n_channels, ctx.sr).with(
            "bpo"@,
            JsonV::Uint(bpo as u64),
        ).with("weighting"@, JsonV::Str(weighting.tag_text())),
        ch,
        ctx,
        freqs,
        single_views(levels),
        ts_ns,
        xruns,
    )
}

/// The fractional-octave frame of a CWT column.
pub fn octave_frame(
    ch: &ChannelState,
    ctx: &TickCtx,
    bpo: u32,
    weighting: Weighting,
    freqs: &Vec<Single>,
    levels: &Vec<Single>,
    ts_ns: u64,
    xruns: u32,
) -> (r: Json)
    ensures
        r@ == octave_frame_of(ch, ctx, bpo, weighting, freqs@, levels@, ts_ns, xruns),
{
    let frame = head(
        "visualize/fractional_octave",
        ch.channel,
        ctx.n_channels,
        ctx.sr,
    ).with("bpo", Json::Uint(bpo as u64)).with("weighting", Json::string(weighting.tag()));
    add_octave_tail(frame, ch, ctx, freqs, Json::singles(levels), ts_ns, xruns)
}

/// The time constants of the fast and slow integrations, in seconds: 0.125
/// and 1.
pub const TAU_FAST: u64 = 0x3FC0_0000_0000_0000;

pub const TAU_SLOW: u64 = 0x3FF0_0000_0000_0000;

/// The time constant of an integration; Leq has none.
pub open spec fn tau_of(mode: Integration) -> Option<Double> {
    match mode {
        Integration::Fast => Some(Double { bits: TAU_FAST }),
        Integration::Slow => Some(Double { bits: TAU_SLOW }),
        _ => None,
    }
}

fn tau(mode: Integration) -> (r: Option<Double>)
    ensures
        r == tau_of(mode),
{
    match mode {
        Integration::Fast => Some(Double::new(TAU_FAST)),
        Integration::Slow => Some(Double::new(TAU_SLOW)),
        _ => None,
    }
}

/// The integrated fractional-octave frame.
pub open spec fn octave_leq_frame_of(
    ch: &ChannelState,
    ctx: &TickCtx,
    bpo: u32,
    weighting: Weighting,
    mode: Integration,
    duration_s: Double,
    freqs: Seq<Single>,
    integrated: Seq<Double>,
    ts_ns: u64,
    xruns: u32,
) -> JsonV {
    octave_tail(
        frame_head(
            "visualize/fractional_octave_leq"@,
            ch.channel,
            ctx.n_channels,
            ctx.sr,
        ).with("bpo"@, JsonV::Uint(bpo as u64)).with(
            "weighting"@,
            JsonV::Str(weighting.tag_text()),
        ).with("mode"@, JsonV::Str(mode.tag_text())).with(
            "tau_s"@,
            double_or_null(tau_of(mode)),
        ).with("duration_s"@, finite_or_null(duration_s)),
        ch,
        ctx,
        freqs,
        double_views(integrated),
        ts_ns,
        xruns,
    )
}

/// The integrated fractional-octave frame.
pub fn octave_leq_frame(
    ch: &ChannelState,
    ctx: &TickCtx,
    bpo: u32,
    weighting: Weighting,
    mode: Integration,
    duration_s: Double,
    freqs: &Vec<Single>,
    integrated: &Vec<Double>,
    ts_ns: u64,
    xruns: u32,
) -> (r: Json)
    ensures
        r@ == octave_leq_frame_of(
            ch,
            ctx,
            bpo,
            weighting,
            mode,
            duration_s,
            freqs@,
            integrated@,
            ts_ns,
            xruns,
        ),
{
    let frame = head(
        "visualize/fractional_octave_leq",
        ch.channel,
        ctx.n_channels,
        ctx.sr,
    ).with("bpo", Json::Uint(bpo as u64)).with("weighting", Json::string(weighting.tag())).with(
        "mode",
        Json::string(mode.tag()),
    ).with("tau_s", Json::opt_float(tau(mode))).with("duration_s", Json::float(duration_s));
    add_octave_tail(frame, ch, ctx, freqs, Json::floats(integrated), ts_ns, xruns)
}

/// An interpolated spectral peak.
#[derive(Clone, Copy, Debug, PartialEq, Eq, Structural)]
pub struct Peak {
    pub freq_hz: Single,
    pub dbfs: Single,
}

/// The most peaks in a frame.
pub const MAX_PEAKS: usize = 64;

/// The readouts of a resolved tone.
pub struct Tone {
    pub freq_hz: Double,
    pub peaks: Vec<Peak>,
    pub fundamental_dbfs: Double,
    pub thd_pct: Double,
    pub thdn_pct: Double,
    pub in_dbu: Option<Double>,
    pub clipping: bool,
}

/// `[frequency, level]`.
pub open spec fn peak_pair(p: Peak) -> JsonV {
    JsonV::Arr(seq![finite_single_or_null(p.freq_hz), finite_single_or_null(p.dbfs)])
}

fn peak_json(p: Peak) -> (r: Json)
    ensures
        r@ == peak_pair(p),
{
    let mut pair: Vec<Json> = Vec::new();
    pair.push(Json::single(p.freq_hz));
    pair.push(Json::single(p.dbfs));
    assert(views(pair@) =~= seq![
        finite_single_or_null(p.freq_hz),
        finite_single_or_null(p.dbfs),
    ]);
    Json::array(pair)
}

fn peaks_json(peaks: &Vec<Peak>) -> (r: Json)
    ensures
        r@ == JsonV::Arr(peaks@.map_values(|p: Peak| peak_pair(p))),
{
    let mut out: Vec<Json> = Vec::new();
    let mut i: usize = 0;
    while i < peaks.len()
        invariant
            i <= peaks.len(),
            out.len() == i,
            forall|k: int| 0 <= k < i ==> (#[trigger] out@[k])@ == peak_pair(peaks@[k]),
        decreases peaks.len() - i,
    {
        out.push(peak_json(peaks[i]));
        i = i + 1;
    }
    assert(views(out@) =~= peaks@.map_values(|p: Peak| peak_pair(p)));
    Json::array(out)
}

/// The spectrum frame of a channel: the columns, the tone readouts when a
/// fundamental was resolved, and the envelope.
pub open spec fn spectrum_frame_of(
    ch: &ChannelState,
    ctx: &TickCtx,
    freqs: Seq<Double>,
    spectrum: Seq<Double>,
    tone: Option<Tone>,
    xruns: u32,
) -> JsonV {
    let columns = JsonV::obj().with("freqs"@, JsonV::Arr(double_views(freqs))).with(
        "spectrum"@,
        JsonV::Arr(double_views(spectrum)),
    );
    let body = match tone {
        Some(t) => columns.with("freq_hz"@, finite_or_null(t.freq_hz)).with(
            "peaks"@,
            JsonV::Arr(t.peaks@.map_values(|p: Peak| peak_pair(p))),
        ).with("fundamental_dbfs"@, finite_or_null(t.fundamental_dbfs)).with(
            "thd_pct"@,
            finite_or_null(t.thd_pct),
        ).with("thdn_pct"@, finite_or_null(t.thdn_pct)).with(
            "in_dbu"@,
            double_or_null(t.in_dbu),
        ).with("clipping"@, JsonV::Bool(t.clipping)),
        None => columns,
    };
    body.with("type"@, JsonV::Str("visualize/spectrum"@)).with(
        "cmd"@,
        JsonV::Str("monitor_spectrum"@),
    ).with("channel"@, JsonV::Uint(ch.channel as u64)).with(
        "n_channels"@,
        JsonV::Uint(ctx.n_channels as u64),
    ).with("sr"@, JsonV::Uint(ctx.sr as u64)).with(
        "dbu_offset_db"@,
        double_or_null(ch.dbu_offset),
    ).with("spl_offset_db"@, double_or_null(ch.spl_offset)).with(
        "mic_correction"@,
        JsonV::Str(correction_tag(ch.curve_loaded, ctx.mic_corr_enabled)),
    ).with("xruns"@, JsonV::Uint(xruns as u64)).with("backend"@, JsonV::Str(ctx.backend@))
}

/// The spectrum frame of a channel.
pub fn spectrum_frame(
    ch: &ChannelState,
    ctx: &TickCtx,
    freqs: &Vec<Double>,
    spectrum: &Vec<Double>,
    tone: &Option<Tone>,
    xruns: u32,
) -> (r: Json)
    ensures
        r@ == spectrum_frame_of(ch, ctx, freqs@, spectrum@, *tone, xruns),
{
    let columns = Json::obj().with("freqs", Json::floats(freqs)).with(
        "spectrum",
        Json::floats(spectrum),
    );
    let body = match tone {
        Some(t) => columns.with("freq_hz", Json::float(t.freq_hz)).with(
            "peaks",
            peaks_json(&t.peaks),
        ).with("fundamental_dbfs", Json::float(t.fundamental_dbfs)).with(
            "thd_pct",
            Json::float(t.thd_pct),
        ).with("thdn_pct", Json::float(t.thdn_pct)).with("in_dbu", Json::opt_float(t.in_dbu)).with(
            "clipping",
            Json::Bool(t.clipping),
        ),
        None => columns,
    };
    let mc: MicCorrection = ch.mic_correction(ctx.mic_corr_enabled);
    body.with("type", Json::string("visualize/spectrum")).with(
        "cmd",
        Json::string("monitor_spectrum"),
    ).with("channel", Json::Uint(ch.channel as u64)).with(
        "n_channels",
        Json::Uint(ctx.n_channels as u64),
    ).with("sr", Json::Uint(ctx.sr as u64)).with("dbu_offset_db", Json::opt_float(ch.dbu_offset)).with(
        "spl_offset_db",
        Json::opt_float(ch.spl_offset),
    ).with("mic_correction", Json::string(mc.tag())).with("xruns", Json::Uint(xruns as u64)).with(
        "backend",
        Json::string(ctx.backend.as_str()),
    )
}

/// Peaks by falling level; one comes after those at least as strong that were
/// placed before it.
pub open spec fn placed(ranked: Seq<Peak>, p: Peak) -> Seq<Peak>
    decreases ranked.len(),
{
    if ranked.len() == 0 {
        seq![p]
    } else if ranked.last().dbfs.rank() >= p.dbfs.rank() {
        ranked.push(p)
    } else {
        placed(ranked.drop_last(), p).push(ranked.last())
    }
}

/// The peaks by falling level, equal ones in their given order.
pub open spec fn by_level(peaks: Seq<Peak>) -> Seq<Peak>
    decreases peaks.len(),
{
    if peaks.len() == 0 {
        peaks
    } else {
        placed(by_level(peaks.drop_last()), peaks.last())
    }
}

/// The peaks at or above a frequency, in order.
pub open spec fn from_freq(peaks: Seq<Peak>, cx: Single) -> Seq<Peak>
    decreases peaks.len(),
{
    if peaks.len() == 0 {
        peaks
    } else if cx.at_most(peaks.last().freq_hz) {
        from_freq(peaks.drop_last(), cx).push(peaks.last())
    } else {
        from_freq(peaks.drop_last(), cx)
    }
}

/// The peaks below a frequency, in order.
pub open spec fn below_freq(peaks: Seq<Peak>, cx: Single) -> Seq<Peak>
    decreases peaks.len(),
{
    if peaks.len() == 0 {
        peaks
    } else if peaks.last().freq_hz.below(cx) {
        below_freq(peaks.drop_last(), cx).push(peaks.last())
    } else {
        below_freq(peaks.drop_last(), cx)
    }
}

/// The first `n` peaks, or all of them.
pub open spec fn strongest(peaks: Seq<Peak>, n: nat) -> Seq<Peak> {
    if peaks.len() > n {
        peaks.take(n as int)
    } else {
        peaks
    }
}

/// The spliced peaks: high-band ones at or above the crossover, low-band ones
/// below it, by falling level, at most `MAX_PEAKS`.
pub open spec fn spliced(high: Seq<Peak>, low: Seq<Peak>, cx: Single) -> Seq<Peak> {
    strongest(by_level(from_freq(high, cx) + below_freq(low, cx)), MAX_PEAKS as nat)
}

fn place(ranked: &mut Vec<Peak>, p: Peak)
    requires
        forall|k: int| 0 <= k < old(ranked).len() ==> !(#[trigger] old(ranked)@[k]).dbfs.nan(),
        !p.dbfs.nan(),
    ensures
        final(ranked)@ == placed(old(ranked)@, p),
        final(ranked).len() == old(ranked).len() + 1,
        forall|k: int| 0 <= k < final(ranked).len() ==> !(#[trigger] final(ranked)@[k]).dbfs.nan(),
{
    let ghost before = ranked@;
    let mut i: usize = ranked.len();
    assert(before.take(before.len() as int) =~= before);
    assert(placed(before, p) =~= placed(before.take(i as int), p) + before.subrange(
        i as int,
        before.len() as int,
    ));
    while i > 0 && ranked[i - 1].dbfs.lt(p.dbfs)
        invariant
            i <= ranked.len(),
            ranked@ == before,
            !p.dbfs.nan(),
            forall|k: int| 0 <= k < before.len() ==> !(#[trigger] before[k]).dbfs.nan(),
            placed(before, p) == placed(before.take(i as int), p) + before.subrange(
                i as int,
                before.len() as int,
            ),
        decreases i,
    {
        proof {
            let t = before.take(i as int);
            assert(t.last() == before[i - 1]);
            assert(t.drop_last() =~= before.take(i - 1));
            assert(placed(t, p) == placed(before.take(i - 1), p).push(before[i - 1]));
            assert(placed(before.take(i - 1), p).push(before[i - 1]) + before.subrange(
                i as int,
                before.len() as int,
            ) =~= placed(before.take(i - 1), p) + before.subrange(i - 1, before.len() as int));
        }
        i = i - 1;
    }
    proof {
        let t = before.take(i as int);
        if i > 0 {
            assert(t.last() == before[i - 1]);
        } else {
            assert(t =~= Seq::empty());
        }
        assert(placed(t, p) =~= t.push(p));
    }
    ranked.insert(i, p);
    assert(ranked@ =~= before.take(i as int).push(p) + before.subrange(
        i as int,
        before.len() as int,
    ));
}

/// Splice the peaks of the long LF spectrum below the crossover with those of
/// the live spectrum at and above it.
pub fn splice_peaks(high: &Vec<Peak>, low: &Vec<Peak>, crossover_hz: Single) -> (r: Vec<Peak>)
    requires
        forall|k: int| 0 <= k < high.len() ==> !(#[trigger] high@[k]).dbfs.nan(),
        forall|k: int| 0 <= k < low.len() ==> !(#[trigger] low@[k]).dbfs.nan(),
    ensures
        r@ == spliced(high@, low@, crossover_hz),
{
    let mut ranked: Vec<Peak> = Vec::new();
    let ghost mut joined: Seq<Peak> = Seq::empty();
    let mut i: usize = 0;
    assert(high@.take(0) =~= Seq::empty());
    while i < high.len()
        invariant
            i <= high.len(),
            forall|k: int| 0 <= k < high.len() ==> !(#[trigger] high@[k]).dbfs.nan(),
            forall|k: int| 0 <= k < ranked.len() ==> !(#[trigger] ranked@[k]).dbfs.nan(),
            joined == from_freq(high@.take(i as int), crossover_hz),
            ranked@ == by_level(joined),
        decreases high.len() - i,
    {
        proof {
            assert(high@.take(i + 1).drop_last() =~= high@.take(i as int));
            assert(high@.take(i + 1).last() == high@[i as int]);
        }
        let p: Peak = high[i];
        if crossover_hz.le(p.freq_hz) {
            place(&mut ranked, p);
            proof {
                assert(joined.push(p).drop_last() =~= joined);
                joined = joined.push(p);
            }
        }
        i = i + 1;
    }
    assert(high@.take(i as int) =~= high@);
    let ghost first = joined;
    i = 0;
    assert(low@.take(0) =~= Seq::empty());
    assert(first + below_freq(low@.take(0), crossover_hz) =~= first);
    while i < low.len()
        invariant
            i <= low.len(),
            forall|k: int| 0 <= k < low.len() ==> !(#[trigger] low@[k]).dbfs.nan(),
            forall|k: int| 0 <= k < ranked.len() ==> !(#[trigger] ranked@[k]).dbfs.nan(),
            joined == first + below_freq(low@.take(i as int), crossover_hz),
            ranked@ == by_level(joined),
        decreases low.len() - i,
    {
        proof {
            assert(low@.take(i + 1).drop_last() =~= low@.take(i as int));
            assert(low@.take(i + 1).last() == low@[i as int]);
        }
        let p: Peak = low[i];
        if p.freq_hz.lt(crossover_hz) {
            place(&mut ranked, p);
            proof {
                assert(joined.push(p).drop_last() =~= joined);
                assert(joined.push(p) =~= first + below_freq(low@.take(i + 1), crossover_hz));
                joined = joined.push(p);
            }
        }
        i = i + 1;
    }
    assert(low@.take(i as int) =~= low@);
    if ranked.len() > MAX_PEAKS {
        ranked.truncate(MAX_PEAKS);
    }
    ranked
}

proof fn placing_keeps_order(ranked: Seq<Peak>, p: Peak)
    requires
        forall|i: int, j: int|
            0 <= i <= j < ranked.len() ==> (#[trigger] ranked[i]).dbfs.rank() >= (
            #[trigger] ranked[j]).dbfs.rank(),
    ensures
        ({
            let s = placed(ranked, p);
            &&& s.len() == ranked.len() + 1
            &&& s.to_multiset() == ranked.to_multiset().insert(p)
            &&& forall|i: int, j: int|
                0 <= i <= j < s.len() ==> (#[trigger] s[i]).dbfs.rank() >= (
                #[trigger] s[j]).dbfs.rank()
            &&& forall|i: int| 0 <= i < s.len() ==> (#[trigger] s[i]).dbfs.rank() >= p.dbfs.rank()
                || exists|k: int| 0 <= k < ranked.len() && #[trigger] ranked[k] == s[i]
        }),
    decreases ranked.len(),
{
    broadcast use vstd::seq_lib::group_to_multiset_ensures;

    let s = placed(ranked, p);
    if ranked.len() == 0 {
        assert(s =~= ranked.push(p));
    } else if ranked.last().dbfs.rank() >= p.dbfs.rank() {
    } else {
        let rest = ranked.drop_last();
        placing_keeps_order(rest, p);
        let t = placed(rest, p);
        assert(ranked =~= rest.push(ranked.last()));
        assert forall|i: int, j: int| 0 <= i <= j < s.len() implies (
        #[trigger] s[i]).dbfs.rank() >= (#[trigger] s[j]).dbfs.rank() by {
            if j == s.len() - 1 && i < j {
                assert(s[i] == t[i]);
                if t[i].dbfs.rank() < p.dbfs.rank() {
                    let k = choose|k: int| 0 <= k < rest.len() && #[trigger] rest[k] == t[i];
                    assert(ranked[k].dbfs.rank() >= ranked[ranked.len() - 1].dbfs.rank());
                }
            } else if j < s.len() - 1 {
                assert(s[i] == t[i] && s[j] == t[j]);
            }
        }
        assert forall|i: int| 0 <= i < s.len() implies (#[trigger] s[i]).dbfs.rank()
            >= p.dbfs.rank() || exists|k: int|
            0 <= k < ranked.len() && #[trigger] ranked[k] == s[i] by {
            if i == s.len() - 1 {
                assert(ranked[ranked.len() - 1] == s[i]);
            } else {
                assert(s[i] == t[i]);
                if t[i].dbfs.rank() < p.dbfs.rank() {
                    let k = choose|k: int| 0 <= k < rest.len() && #[trigger] rest[k] == t[i];
                    assert(ranked[k] == s[i]);
                }
            }
        }
    }
}

/// Ranking reorders the peaks by falling level and loses none.
pub proof fn ranking_sorts_the_peaks(peaks: Seq<Peak>)
    ensures
        by_level(peaks).to_multiset() == peaks.to_multiset(),
        forall|i: int, j: int|
            0 <= i <= j < by_level(peaks).len() ==> (#[trigger] by_level(peaks)[i]).dbfs.rank() >= (
            #[trigger] by_level(peaks)[j]).dbfs.rank(),
    decreases peaks.len(),
{
    broadcast use vstd::seq_lib::group_to_multiset_ensures;

    if peaks.len() > 0 {
        let rest = peaks.drop_last();
        ranking_sorts_the_peaks(rest);
        placing_keeps_order(by_level(rest), peaks.last());
        assert(peaks =~= rest.push(peaks.last()));
    }
}

/// The spectrum frame of a resolved tone carries each readout under its own
/// name.
pub proof fn a_tone_is_told_by_name(
    ch: &ChannelState,
    ctx: &TickCtx,
    freqs: Seq<Double>,
    spectrum: Seq<Double>,
    tone: Tone,
    xruns: u32,
)
    ensures
        ({
            let frame = spectrum_frame_of(ch, ctx, freqs, spectrum, Some(tone), xruns);
            &&& frame.field("freq_hz"@) == Some(finite_or_null(tone.freq_hz))
            &&& frame.field("fundamental_dbfs"@) == Some(finite_or_null(tone.fundamental_dbfs))
            &&& frame.field("thd_pct"@) == Some(finite_or_null(tone.thd_pct))
            &&& frame.field("thdn_pct"@) == Some(finite_or_null(tone.thdn_pct))
            &&& frame.field("in_dbu"@) == Some(double_or_null(tone.in_dbu))
            &&& frame.field("clipping"@) == Some(JsonV::Bool(tone.clipping))
            &&& frame.field("peaks"@) matches Some(JsonV::Arr(told)) && told.len()
                == tone.peaks@.len() && forall|i: int|
                0 <= i < told.len() ==> (#[trigger] told[i]) == JsonV::Arr(
                    seq![
                        finite_single_or_null(tone.peaks@[i].freq_hz),
                        finite_single_or_null(tone.peaks@[i].dbfs),
                    ],
                )
        }),
{
    fields_read_back();
    reveal_strlit("freqs");
    reveal_strlit("spectrum");
    reveal_strlit("freq_hz");
    reveal_strlit("peaks");
    reveal_strlit("fundamental_dbfs");
    reveal_strlit("thd_pct");
    reveal_strlit("thdn_pct");
    reveal_strlit("in_dbu");
    reveal_strlit("clipping");
    reveal_strlit("type");
    reveal_strlit("cmd");
    reveal_strlit("channel");
    reveal_strlit("n_channels");
    reveal_strlit("sr");
    reveal_strlit("dbu_offset_db");
    reveal_strlit("spl_offset_db");
    reveal_strlit("mic_correction");
    reveal_strlit("xruns");
    reveal_strlit("backend");
    assert("freqs"@.len() == 5);
    assert("spectrum"@.len() == 8);
    assert("freq_hz"@.len() == 7);
    assert("peaks"@.len() == 5);
    assert("fundamental_dbfs"@.len() == 16);
    assert("thd_pct"@.len() == 7);
    assert("thdn_pct"@.len() == 8);
    assert("in_dbu"@.len() == 6);
    assert("clipping"@.len() == 8);
    assert("type"@.len() == 4);
    assert("cmd"@.len() == 3);
    assert("channel"@.len() == 7);
    assert("n_channels"@.len() == 10);
    assert("sr"@.len() == 2);
    assert("dbu_offset_db"@.len() == 13);
    assert("spl_offset_db"@.len() == 13);
    assert("mic_correction"@.len() == 14);
    assert("xruns"@.len() == 5);
    assert("backend"@.len() == 7);
    assert("freqs"@[0] != "peaks"@[0]);
    assert("freqs"@[0] != "xruns"@[0]);
    assert("peaks"@[0] != "xruns"@[0]);
    assert("spectrum"@[0] != "thdn_pct"@[0]);
    assert("spectrum"@[0] != "clipping"@[0]);
    assert("thdn_pct"@[0] != "clipping"@[0]);
    assert("freq_hz"@[0] != "thd_pct"@[0]);
    assert("freq_hz"@[0] != "channel"@[0]);
    assert("freq_hz"@[0] != "backend"@[0]);
    assert("thd_pct"@[0] != "channel"@[0]);
    assert("thd_pct"@[0] != "backend"@[0]);
    assert("channel"@[0] != "backend"@[0]);
    assert("dbu_offset_db"@[0] != "spl_offset_db"@[0]);
}

/// A spectrum frame carries its columns, its channel and what its levels are
/// referred to, each under its own name, whether or not a tone was resolved;
/// without one it carries no readout of a tone.
pub proof fn a_spectrum_is_told_by_name(
    ch: &ChannelState,
    ctx: &TickCtx,
    freqs: Seq<Double>,
    spectrum: Seq<Double>,
    tone: Option<Tone>,
    xruns: u32,
)
    ensures
        ({
            let frame = spectrum_frame_of(ch, ctx, freqs, spectrum, tone, xruns);
            &&& frame.field("freqs"@) == Some(JsonV::Arr(double_views(freqs)))
            &&& frame.field("spectrum"@) == Some(JsonV::Arr(double_views(spectrum)))
            &&& frame.field("type"@) == Some(JsonV::Str("visualize/spectrum"@))
            &&& frame.field("cmd"@) == Some(JsonV::Str("monitor_spectrum"@))
            &&& frame.field("channel"@) == Some(JsonV::Uint(ch.channel as u64))
            &&& frame.field("n_channels"@) == Some(JsonV::Uint(ctx.n_channels as u64))
            &&& frame.field("sr"@) == Some(JsonV::Uint(ctx.sr as u64))
            &&& frame.field("dbu_offset_db"@) == Some(double_or_null(ch.dbu_offset))
            &&& frame.field("spl_offset_db"@) == Some(double_or_null(ch.spl_offset))
            &&& frame.field("mic_correction"@) == Some(
                JsonV::Str(correction_tag(ch.curve_loaded, ctx.mic_corr_enabled)),
            )
            &&& frame.field("xruns"@) == Some(JsonV::Uint(xruns as u64))
            &&& frame.field("backend"@) == Some(JsonV::Str(ctx.backend@))
            &&& tone is None ==> frame.field("freq_hz"@) is None && frame.field("thd_pct"@) is None
                && frame.field("thdn_pct"@) is None && frame.field("fundamental_dbfs"@) is None
                && frame.field("in_dbu"@) is None && frame.field("clipping"@) is None
                && frame.field("peaks"@) is None
        }),
{
    fields_read_back();
    reveal_strlit("freqs");
    reveal_strlit("spectrum");
    reveal_strlit("freq_hz");
    reveal_strlit("peaks");
    reveal_strlit("fundamental_dbfs");
    reveal_strlit("thd_pct");
    reveal_strlit("thdn_pct");
    reveal_strlit("in_dbu");
    reveal_strlit("clipping");
    reveal_strlit("type");
    reveal_strlit("cmd");
    reveal_strlit("channel");
    reveal_strlit("n_channels");
    reveal_strlit("sr");
    reveal_strlit("dbu_offset_db");
    reveal_strlit("spl_offset_db");
    reveal_strlit("mic_correction");
    reveal_strlit("xruns");
    reveal_strlit("backend");
    assert("freqs"@.len() == 5);
    assert("spectrum"@.len() == 8);
    assert("freq_hz"@.len() == 7);
    assert("peaks"@.len() == 5);
    assert("fundamental_dbfs"@.len() == 16);
    assert("thd_pct"@.len() == 7);
    assert("thdn_pct"@.len() == 8);
    assert("in_dbu"@.len() == 6);
    assert("clipping"@.len() == 8);
    assert("type"@.len() == 4);
    assert("cmd"@.len() == 3);
    assert("channel"@.len() == 7);
    assert("n_channels"@.len() == 10);
    assert("sr"@.len() == 2);
    assert("dbu_offset_db"@.len() == 13);
    assert("spl_offset_db"@.len() == 13);
    assert("mic_correction"@.len() == 14);
    assert("xruns"@.len() == 5);
    assert("backend"@.len() == 7);
    assert("freqs"@[0] != "peaks"@[0]);
    assert("freqs"@[0] != "xruns"@[0]);
    assert("peaks"@[0] != "xruns"@[0]);
    assert("spectrum"@[0] != "thdn_pct"@[0]);
    assert("spectrum"@[0] != "clipping"@[0]);
    assert("thdn_pct"@[0] != "clipping"@[0]);
    assert("freq_hz"@[0] != "thd_pct"@[0]);
    assert("freq_hz"@[0] != "channel"@[0]);
    assert("freq_hz"@[0] != "backend"@[0]);
    assert("thd_pct"@[0] != "channel"@[0]);
    assert("thd_pct"@[0] != "backend"@[0]);
    assert("channel"@[0] != "backend"@[0]);
    assert("dbu_offset_db"@[0] != "spl_offset_db"@[0]);
}

/// A loudness frame carries each reading under its own name.
pub proof fn loudness_is_told_by_name(
    ch: &ChannelState,
    ctx: &TickCtx,
    loudness: Loudness,
    tag: Seq<char>,
    at_ns: u64,
    xruns: u32,
)
    ensures
        ({
            let frame = loudness_frame_of(ch, ctx, loudness, tag, at_ns, xruns);
            &&& frame.field("momentary_lkfs"@) == Some(finite_or_null(loudness.momentary))
            &&& frame.field("short_term_lkfs"@) == Some(finite_or_null(loudness.short_term))
            &&& frame.field("integrated_lkfs"@) == Some(finite_or_null(loudness.integrated))
            &&& frame.field("lra_lu"@) == Some(finite_or_null(loudness.range))
            &&& frame.field("true_peak_dbtp"@) == Some(finite_or_null(loudness.true_peak))
            &&& frame.field("gated_duration_s"@) == Some(
                finite_or_null(loudness.gated_duration_s),
            )
            &&& frame.field("spl_offset_db"@) == Some(double_or_null(ch.spl_offset))
            &&& frame.field("mic_correction"@) == Some(JsonV::Str(tag))
            &&& frame.field("timestamp"@) == Some(JsonV::Uint(at_ns))
            &&& frame.field("xruns"@) == Some(JsonV::Uint(xruns as u64))
            &&& frame.field("channel"@) == Some(JsonV::Uint(ch.channel as u64))
            &&& frame.field("n_channels"@) == Some(JsonV::Uint(ctx.n_channels as u64))
            &&& frame.field("sr"@) == Some(JsonV::Uint(ctx.sr as u64))
            &&& frame.field("type"@) == Some(JsonV::Str("measurement/loudness"@))
            &&& frame.field("cmd"@) == Some(JsonV::Str("monitor_spectrum"@))
        }),
{
    fields_read_back();
    reveal_strlit("type");
    reveal_strlit("cmd");
    reveal_strlit("channel");
    reveal_strlit("n_channels");
    reveal_strlit("sr");
    reveal_strlit("momentary_lkfs");
    reveal_strlit("short_term_lkfs");
    reveal_strlit("integrated_lkfs");
    reveal_strlit("lra_lu");
    reveal_strlit("true_peak_dbtp");
    reveal_strlit("gated_duration_s");
    reveal_strlit("spl_offset_db");
    reveal_strlit("mic_correction");
    reveal_strlit("timestamp");
    reveal_strlit("xruns");
    assert("type"@.len() == 4);
    assert("cmd"@.len() == 3);
    assert("channel"@.len() == 7);
    assert("n_channels"@.len() == 10);
    assert("sr"@.len() == 2);
    assert("momentary_lkfs"@.len() == 14);
    assert("short_term_lkfs"@.len() == 15);
    assert("integrated_lkfs"@.len() == 15);
    assert("lra_lu"@.len() == 6);
    assert("true_peak_dbtp"@.len() == 14);
    assert("gated_duration_s"@.len() == 16);
    assert("spl_offset_db"@.len() == 13);
    assert("mic_correction"@.len() == 14);
    assert("timestamp"@.len() == 9);
    assert("xruns"@.len() == 5);
    assert("momentary_lkfs"@[0] != "true_peak_dbtp"@[0]);
    assert("momentary_lkfs"@[1] != "mic_correction"@[1]);
    assert("true_peak_dbtp"@[0] != "mic_correction"@[0]);
    assert("short_term_lkfs"@[0] != "integrated_lkfs"@[0]);
}

/// A scope frame carries the end of the capture, sample by sample: no more
/// than `SCOPE_MAX_SAMPLES` of them, all of them where there are no more, and
/// the last one last. Every channel of a tick shares the index and the time.
pub proof fn a_scope_frame_ends_with_the_capture(
    channel: u32,
    ctx: &TickCtx,
    samples: Seq<Single>,
    xruns: u32,
)
    ensures
        ({
            let frame = scope_frame_of(channel, ctx, samples, xruns);
            &&& frame.field("frame_idx"@) == Some(JsonV::Uint(ctx.frame_idx))
            &&& frame.field("timestamp"@) == Some(JsonV::Uint(ctx.tick_ts_ns))
            &&& frame.field("channel"@) == Some(JsonV::Uint(channel as u64))
            &&& frame.field("n_channels"@) == Some(JsonV::Uint(ctx.n_channels as u64))
            &&& frame.field("sr"@) == Some(JsonV::Uint(ctx.sr as u64))
            &&& frame.field("xruns"@) == Some(JsonV::Uint(xruns as u64))
            &&& frame.field("type"@) == Some(JsonV::Str("visualize/scope"@))
            &&& frame.field("samples"@) matches Some(JsonV::Arr(told)) && told.len() <= 2048
                && told.len() <= samples.len() && (told.len() == samples.len() || told.len()
                == 2048) && forall|i: int|
                0 <= i < told.len() ==> (#[trigger] told[i]) == finite_single_or_null(
                    samples[samples.len() - told.len() + i],
                )
        }),
{
    fields_read_back();
    reveal_strlit("type");
    reveal_strlit("cmd");
    reveal_strlit("channel");
    reveal_strlit("n_channels");
    reveal_strlit("sr");
    reveal_strlit("frame_idx");
    reveal_strlit("samples");
    reveal_strlit("timestamp");
    reveal_strlit("xruns");
    assert("type"@.len() == 4);
    assert("cmd"@.len() == 3);
    assert("channel"@.len() == 7);
    assert("n_channels"@.len() == 10);
    assert("sr"@.len() == 2);
    assert("frame_idx"@.len() == 9);
    assert("samples"@.len() == 7);
    assert("timestamp"@.len() == 9);
    assert("xruns"@.len() == 5);
    assert("channel"@[0] != "samples"@[0]);
    assert("frame_idx"@[0] != "timestamp"@[0]);
}

/// A column frame carries magnitudes and frequencies each under its own name,
/// and the bands per octave exactly where the mode has them.
pub proof fn a_column_is_told_by_name(
    ch: &ChannelState,
    ctx: &TickCtx,
    kind: Seq<char>,
    freqs: Seq<Single>,
    mags: Seq<Single>,
    bands: Option<u64>,
    at_ns: u64,
    xruns: u32,
)
    ensures
        ({
            let frame = column_frame_of(ch, ctx, kind, freqs, mags, bands, at_ns, xruns);
            &&& frame.field("type"@) == Some(JsonV::Str(kind))
            &&& frame.field("cmd"@) == Some(JsonV::Str("monitor_spectrum"@))
            &&& frame.field("channel"@) == Some(JsonV::Uint(ch.channel as u64))
            &&& frame.field("n_channels"@) == Some(JsonV::Uint(ctx.n_channels as u64))
            &&& frame.field("sr"@) == Some(JsonV::Uint(ctx.sr as u64))
            &&& frame.field("magnitudes"@) == Some(JsonV::Arr(single_views(mags)))
            &&& frame.field("frequencies"@) == Some(JsonV::Arr(single_views(freqs)))
            &&& frame.field("spl_offset_db"@) == Some(double_or_null(ch.spl_offset))
            &&& frame.field("mic_correction"@) == Some(
                JsonV::Str(correction_tag(ch.curve_loaded, ctx.mic_corr_enabled)),
            )
            &&& frame.field("timestamp"@) == Some(JsonV::Uint(at_ns))
            &&& frame.field("xruns"@) == Some(JsonV::Uint(xruns as u64))
            &&& bands is None ==> frame.field("bpo"@) is None
            &&& bands matches Some(n) ==> frame.field("bpo"@) == Some(JsonV::Uint(n))
        }),
{
    fields_read_back();
    reveal_strlit("type");
    reveal_strlit("cmd");
    reveal_strlit("channel");
    reveal_strlit("n_channels");
    reveal_strlit("sr");
    reveal_strlit("magnitudes");
    reveal_strlit("frequencies");
    reveal_strlit("spl_offset_db");
    reveal_strlit("mic_correction");
    reveal_strlit("timestamp");
    reveal_strlit("xruns");
    reveal_strlit("bpo");
    assert("type"@.len() == 4);
    assert("cmd"@.len() == 3);
    assert("channel"@.len() == 7);
    assert("n_channels"@.len() == 10);
    assert("sr"@.len() == 2);
    assert("magnitudes"@.len() == 10);
    assert("frequencies"@.len() == 11);
    assert("spl_offset_db"@.len() == 13);
    assert("mic_correction"@.len() == 14);
    assert("timestamp"@.len() == 9);
    assert("xruns"@.len() == 5);
    assert("bpo"@.len() == 3);
    assert("cmd"@[0] != "bpo"@[0]);
    assert("n_channels"@[0] != "magnitudes"@[0]);
}

/// A fractional-octave frame carries its bands, weighting and levels each
/// under its own name.
pub proof fn octaves_are_told_by_name(
    ch: &ChannelState,
    ctx: &TickCtx,
    bands: u32,
    weighting: Weighting,
    freqs: Seq<Single>,
    levels: Seq<Single>,
    at_ns: u64,
    xruns: u32,
)
    ensures
        ({
            let frame = octave_frame_of(
                ch,
                ctx,
                bands,
                weighting,
                freqs,
                levels,
                at_ns,
                xruns,
            );
            &&& frame.field("type"@) == Some(JsonV::Str("visualize/fractional_octave"@))
            &&& frame.field("channel"@) == Some(JsonV::Uint(ch.channel as u64))
            &&& frame.field("n_channels"@) == Some(JsonV::Uint(ctx.n_channels as u64))
            &&& frame.field("sr"@) == Some(JsonV::Uint(ctx.sr as u64))
            &&& frame.field("bpo"@) == Some(JsonV::Uint(bands as u64))
            &&& frame.field("weighting"@) == Some(JsonV::Str(weighting.tag_text()))
            &&& frame.field("freqs"@) == Some(JsonV::Arr(single_views(freqs)))
            &&& frame.field("spectrum"@) == Some(JsonV::Arr(single_views(levels)))
            &&& frame.field("spl_offset_db"@) == Some(double_or_null(ch.spl_offset))
            &&& frame.field("mic_correction"@) == Some(
                JsonV::Str(correction_tag(ch.curve_loaded, ctx.mic_corr_enabled)),
            )
            &&& frame.field("timestamp"@) == Some(JsonV::Uint(at_ns))
            &&& frame.field("xruns"@) == Some(JsonV::Uint(xruns as u64))
            &&& frame.field("backend"@) == Some(JsonV::Str(ctx.backend@))
        }),
{
    fields_read_back();
    reveal_strlit("type");
    reveal_strlit("cmd");
    reveal_strlit("channel");
    reveal_strlit("n_channels");
    reveal_strlit("sr");
    reveal_strlit("bpo");
    reveal_strlit("weighting");
    reveal_strlit("freqs");
    reveal_strlit("spectrum");
    reveal_strlit("spl_offset_db");
    reveal_strlit("mic_correction");
    reveal_strlit("timestamp");
    reveal_strlit("xruns");
    reveal_strlit("backend");
    assert("type"@.len() == 4);
    assert("cmd"@.len() == 3);
    assert("channel"@.len() == 7);
    assert("n_channels"@.len() == 10);
    assert("sr"@.len() == 2);
    assert("bpo"@.len() == 3);
    assert("weighting"@.len() == 9);
    assert("freqs"@.len() == 5);
    assert("spectrum"@.len() == 8);
    assert("spl_offset_db"@.len() == 13);
    assert("mic_correction"@.len() == 14);
    assert("timestamp"@.len() == 9);
    assert("xruns"@.len() == 5);
    assert("backend"@.len() == 7);
    assert("cmd"@[0] != "bpo"@[0]);
    assert("channel"@[0] != "backend"@[0]);
    assert("weighting"@[0] != "timestamp"@[0]);
    assert("freqs"@[0] != "xruns"@[0]);
}

/// An integrated fractional-octave frame carries the integration beside the
/// rest: its mode, how long it ran, and its time constant, an eighth of a
/// second for fast, a second for slow, and null where there is none.
pub proof fn integrated_octaves_are_told_by_name(
    ch: &ChannelState,
    ctx: &TickCtx,
    bands: u32,
    weighting: Weighting,
    mode: Integration,
    ran_s: Double,
    freqs: Seq<Single>,
    levels: Seq<Double>,
    at_ns: u64,
    xruns: u32,
)
    ensures
        ({
            let frame = octave_leq_frame_of(
                ch,
                ctx,
                bands,
                weighting,
                mode,
                ran_s,
                freqs,
                levels,
                at_ns,
                xruns,
            );
            &&& frame.field("type"@) == Some(JsonV::Str("visualize/fractional_octave_leq"@))
            &&& frame.field("channel"@) == Some(JsonV::Uint(ch.channel as u64))
            &&& frame.field("n_channels"@) == Some(JsonV::Uint(ctx.n_channels as u64))
            &&& frame.field("sr"@) == Some(JsonV::Uint(ctx.sr as u64))
            &&& frame.field("bpo"@) == Some(JsonV::Uint(bands as u64))
            &&& frame.field("weighting"@) == Some(JsonV::Str(weighting.tag_text()))
            &&& frame.field("mode"@) == Some(JsonV::Str(mode.tag_text()))
            &&& frame.field("duration_s"@) == Some(finite_or_null(ran_s))
            &&& frame.field("tau_s"@) == Some(
                if mode == Integration::Fast {
                    finite_or_null(Double { bits: 0x3FC0_0000_0000_0000 })
                } else if mode == Integration::Slow {
                    finite_or_null(Double { bits: 0x3FF0_0000_0000_0000 })
                } else {
                    JsonV::Null
                },
            )
            &&& frame.field("freqs"@) == Some(JsonV::Arr(single_views(freqs)))
            &&& frame.field("spectrum"@) == Some(JsonV::Arr(double_views(levels)))
            &&& frame.field("spl_offset_db"@) == Some(double_or_null(ch.spl_offset))
            &&& frame.field("mic_correction"@) == Some(
                JsonV::Str(correction_tag(ch.curve_loaded, ctx.mic_corr_enabled)),
            )
            &&& frame.field("timestamp"@) == Some(JsonV::Uint(at_ns))
            &&& frame.field("xruns"@) == Some(JsonV::Uint(xruns as u64))
            &&& frame.field("backend"@) == Some(JsonV::Str(ctx.backend@))
        }),
{
    fields_read_back();
    reveal_strlit("type");
    reveal_strlit("cmd");
    reveal_strlit("channel");
    reveal_strlit("n_channels");
    reveal_strlit("sr");
    reveal_strlit("bpo");
    reveal_strlit("weighting");
    reveal_strlit("mode");
    reveal_strlit("tau_s");
    reveal_strlit("duration_s");
    reveal_strlit("freqs");
    reveal_strlit("spectrum");
    reveal_strlit("spl_offset_db");
    reveal_strlit("mic_correction");
    reveal_strlit("timestamp");
    reveal_strlit("xruns");
    reveal_strlit("backend");
    assert("type"@.len() == 4);
    assert("cmd"@.len() == 3);
    assert("channel"@.len() == 7);
    assert("n_channels"@.len() == 10);
    assert("sr"@.len() == 2);
    assert("bpo"@.len() == 3);
    assert("weighting"@.len() == 9);
    assert("mode"@.len() == 4);
    assert("tau_s"@.len() == 5);
    assert("duration_s"@.len() == 10);
    assert("freqs"@.len() == 5);
    assert("spectrum"@.len() == 8);
    assert("spl_offset_db"@.len() == 13);
    assert("mic_correction"@.len() == 14);
    assert("timestamp"@.len() == 9);
    assert("xruns"@.len() == 5);
    assert("backend"@.len() == 7);
    assert("type"@[0] != "mode"@[0]);
    assert("cmd"@[0] != "bpo"@[0]);
    assert("channel"@[0] != "backend"@[0]);
    assert("n_channels"@[0] != "duration_s"@[0]);
    assert("weighting"@[0] != "timestamp"@[0]);
    assert("tau_s"@[0] != "freqs"@[0]);
    assert("tau_s"@[0] != "xruns"@[0]);
    assert("freqs"@[0] != "xruns"@[0]);
}

proof fn high_band_peaks(peaks: Seq<Peak>, cx: Single)
    ensures
        forall|p: Peak| #[trigger]
            from_freq(peaks, cx).contains(p) <==> peaks.contains(p) && cx.at_most(p.freq_hz),
    decreases peaks.len(),
{
    if peaks.len() > 0 {
        let rest = peaks.drop_last();
        high_band_peaks(rest, cx);
        assert(peaks =~= rest.push(peaks.last()));
        assert forall|p: Peak| #[trigger]
            from_freq(peaks, cx).contains(p) <==> peaks.contains(p) && cx.at_most(p.freq_hz) by {
            pushing_adds_one(rest, peaks.last(), p);
            pushing_adds_one(from_freq(rest, cx), peaks.last(), p);
            assert(from_freq(rest, cx).contains(p) <==> rest.contains(p) && cx.at_most(p.freq_hz));
        }
    }
}

proof fn low_band_peaks(peaks: Seq<Peak>, cx: Single)
    ensures
        forall|p: Peak| #[trigger]
            below_freq(peaks, cx).contains(p) <==> peaks.contains(p) && p.freq_hz.below(cx),
    decreases peaks.len(),
{
    if peaks.len() > 0 {
        let rest = peaks.drop_last();
        low_band_peaks(rest, cx);
        assert(peaks =~= rest.push(peaks.last()));
        assert forall|p: Peak| #[trigger]
            below_freq(peaks, cx).contains(p) <==> peaks.contains(p) && p.freq_hz.below(cx) by {
            pushing_adds_one(rest, peaks.last(), p);
            pushing_adds_one(below_freq(rest, cx), peaks.last(), p);
            assert(below_freq(rest, cx).contains(p) <==> rest.contains(p) && p.freq_hz.below(cx));
        }
    }
}

proof fn pushing_adds_one(s: Seq<Peak>, last: Peak, p: Peak)
    ensures
        s.push(last).contains(p) <==> s.contains(p) || p == last,
{
    let t = s.push(last);
    if s.contains(p) {
        let i = choose|i: int| 0 <= i < s.len() && s[i] == p;
        assert(t[i] == p);
    }
    if p == last {
        assert(t[s.len() as int] == p);
    }
    if t.contains(p) {
        let i = choose|i: int| 0 <= i < t.len() && t[i] == p;
        if i < s.len() {
            assert(s[i] == p);
        }
    }
}

/// Spliced peaks come from the live spectrum at and above the crossover and
/// from the long one below it, by falling level and at most `MAX_PEAKS`; an
/// eligible peak is missing only where so many at least as strong are there.
pub proof fn splicing_keeps_the_strongest(high: Seq<Peak>, low: Seq<Peak>, cx: Single, p: Peak)
    ensures
        ({
            let kept = spliced(high, low, cx);
            &&& kept.len() <= 64
            &&& kept.contains(p) ==> (high.contains(p) && cx.at_most(p.freq_hz)) || (low.contains(p)
                && p.freq_hz.below(cx))
            &&& (high.contains(p) && cx.at_most(p.freq_hz)) || (low.contains(p)
                && p.freq_hz.below(cx)) ==> kept.contains(p) || (kept.len() == 64 && forall|i: int|
                0 <= i < kept.len() ==> (#[trigger] kept[i]).dbfs.rank() >= p.dbfs.rank())
            &&& forall|i: int, j: int|
                0 <= i <= j < kept.len() ==> (#[trigger] kept[i]).dbfs.rank() >= (
                #[trigger] kept[j]).dbfs.rank()
        }),
{
    broadcast use vstd::seq_lib::group_to_multiset_ensures;

    let a = from_freq(high, cx);
    let b = below_freq(low, cx);
    let all = a + b;
    let ranked = by_level(all);
    let kept = spliced(high, low, cx);
    high_band_peaks(high, cx);
    low_band_peaks(low, cx);
    ranking_sorts_the_peaks(all);
    assert(a.contains(p) <==> high.contains(p) && cx.at_most(p.freq_hz));
    assert(b.contains(p) <==> low.contains(p) && p.freq_hz.below(cx));
    assert(all.contains(p) <==> a.contains(p) || b.contains(p)) by {
        if a.contains(p) {
            let i = choose|i: int| 0 <= i < a.len() && a[i] == p;
            assert(all[i] == p);
        }
        if b.contains(p) {
            let i = choose|i: int| 0 <= i < b.len() && b[i] == p;
            assert(all[a.len() + i] == p);
        }
        if all.contains(p) {
            let i = choose|i: int| 0 <= i < all.len() && all[i] == p;
            if i < a.len() {
                assert(a[i] == p);
            } else {
                assert(b[i - a.len()] == p);
            }
        }
    }
    assert(ranked.contains(p) <==> all.contains(p)) by {
        assert(ranked.contains(p) <==> ranked.to_multiset().count(p) > 0);
        assert(all.contains(p) <==> all.to_multiset().count(p) > 0);
    }
    if kept.contains(p) {
        let i = choose|i: int| 0 <= i < kept.len() && kept[i] == p;
        assert(ranked[i] == p);
    }
    if ranked.contains(p) && !kept.contains(p) {
        let j = choose|j: int| 0 <= j < ranked.len() && ranked[j] == p;
        if j < kept.len() {
            assert(kept[j] == p);
        }
        assert forall|i: int| 0 <= i < kept.len() implies (#[trigger] kept[i]).dbfs.rank()
            >= p.dbfs.rank() by {
            assert(kept[i] == ranked[i]);
            assert(ranked[i].dbfs.rank() >= ranked[j].dbfs.rank());
        }
    }
    assert forall|i: int, j: int| 0 <= i <= j < kept.len() implies (
    #[trigger] kept[i]).dbfs.rank() >= (#[trigger] kept[j]).dbfs.rank() by {
        assert(kept[i] == ranked[i] && kept[j] == ranked[j]);
    }
}

} // verus!
