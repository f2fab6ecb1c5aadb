//! The frame of one measured point of a plot.
use vstd::prelude::*;

use crate::double::{
    a_fraction_of_n_is_within_n, fraction_mag, fractions_are_at_most_one, Double,
};
use crate::json::{
    double_or_null, double_views, fields_read_back, finite_or_null, Json, JsonV, views,
};
use crate::mic::{correction_tag, MicCorrection};
use crate::settings::{Integration, Weighting};

verus! {

/// The index into `n` bins that the `i`-th of `max_pts` evenly spread points
/// falls on, computed in doubles: `(n - 1) * (i / (max_pts - 1))`, cut to an
/// integer.
pub open spec fn spread_index(i: nat, n: nat, max_pts: nat) -> nat {
    if max_pts <= 1 {
        0
    } else {
        (Double { bits: fraction_mag(i, (max_pts - 1) as nat) as u64 }).times_truncated(
            (n - 1) as nat,
        )
    }
}

/// `x` put in its place in an ascending sequence, unless it is there.
pub open spec fn inserted(s: Seq<usize>, x: usize) -> Seq<usize>
    decreases s.len(),
{
    if s.len() == 0 || s.last() < x {
        s.push(x)
    } else if s.last() == x {
        s
    } else {
        inserted(s.drop_last(), x).push(s.last())
    }
}

/// The indices that the first `count` spread points fall on, ascending, each
/// once.
pub open spec fn spread(count: nat, n: nat, max_pts: nat) -> Seq<usize>
    decreases count,
{
    if count == 0 {
        Seq::empty()
    } else {
        inserted(
            spread((count - 1) as nat, n, max_pts),
            spread_index((count - 1) as nat, n, max_pts) as usize,
        )
    }
}

/// Strictly ascending.
pub open spec fn ascending(s: Seq<usize>) -> bool {
    forall|i: int, j: int| 0 <= i < j < s.len() ==> s[i] < s[j]
}

proof fn insertion(s: Seq<usize>, x: usize)
    requires
        ascending(s),
    ensures
        ascending(inserted(s, x)),
        forall|y: usize| #[trigger] inserted(s, x).contains(y) <==> s.contains(y) || y == x,
    decreases s.len(),
{
    if s.len() == 0 || s.last() < x {
        let r = s.push(x);
        assert forall|y: usize| #[trigger] r.contains(y) <==> s.contains(y) || y == x by {
            if s.contains(y) {
                let i = choose|i: int| 0 <= i < s.len() && s[i] == y;
                assert(r[i] == y);
            }
            if y == x {
                assert(r[s.len() as int] == x);
            }
        }
    } else if s.last() == x {
    } else {
        let t = s.drop_last();
        insertion(t, x);
        let r = inserted(t, x).push(s.last());
        assert forall|y: usize| #[trigger] r.contains(y) <==> s.contains(y) || y == x by {
            let u = inserted(t, x);
            assert(u.contains(y) <==> t.contains(y) || y == x);
            if u.contains(y) {
                let i = choose|i: int| 0 <= i < u.len() && u[i] == y;
                assert(r[i] == y);
            }
            if s.contains(y) {
                let i = choose|i: int| 0 <= i < s.len() && s[i] == y;
                if i < t.len() {
                    assert(t[i] == y);
                } else {
                    assert(r[u.len() as int] == y);
                }
            }
            if r.contains(y) {
                let i = choose|i: int| 0 <= i < r.len() && r[i] == y;
                if i < u.len() {
                    assert(u[i] == y);
                    if t.contains(y) {
                        let j = choose|j: int| 0 <= j < t.len() && t[j] == y;
                        assert(s[j] == y);
                    }
                } else {
                    assert(s[s.len() - 1] == y);
                }
            }
        }
        assert forall|i: int, j: int| 0 <= i < j < r.len() implies r[i] < r[j] by {
            let u = inserted(t, x);
            if j == u.len() {
                assert(u.contains(u[i]));
                if t.contains(u[i]) {
                    let k = choose|k: int| 0 <= k < t.len() && t[k] == u[i];
                    assert(s[k] < s[s.len() - 1]);
                }
            }
        }
    }
}

/// A thinned spectrum keeps bins of the full one, in order, each once, and
/// only bins that a spread point falls on.
pub proof fn thinning_keeps_order(count: nat, n: nat, max_pts: nat)
    requires
        0 < n <= u32::MAX,
        count <= max_pts <= u32::MAX,
    ensures
        ascending(spread(count, n, max_pts)),
        forall|y: usize| #[trigger]
            spread(count, n, max_pts).contains(y) <==> exists|i: nat|
                i < count && #[trigger] spread_index(i, n, max_pts) == y,
        forall|y: usize| #[trigger] spread(count, n, max_pts).contains(y) ==> y < n,
    decreases count,
{
    if count > 0 {
        let m = (count - 1) as nat;
        thinning_keeps_order(m, n, max_pts);
        index_in_range(m, n, max_pts);
        let x = spread_index(m, n, max_pts);
        insertion(spread(m, n, max_pts), x as usize);
        assert forall|y: usize| #[trigger]
            spread(count, n, max_pts).contains(y) <==> exists|i: nat|
                i < count && #[trigger] spread_index(i, n, max_pts) == y by {
            assert(spread(count, n, max_pts).contains(y) <==> spread(m, n, max_pts).contains(y)
                || y == x);
            if spread(m, n, max_pts).contains(y) {
                let i = choose|i: nat| i < m && #[trigger] spread_index(i, n, max_pts) == y;
                assert(i < count && spread_index(i, n, max_pts) == y);
            }
            if exists|i: nat| i < count && #[trigger] spread_index(i, n, max_pts) == y {
                let i = choose|i: nat| i < count && #[trigger] spread_index(i, n, max_pts) == y;
                if i < m {
                    assert(i < m && spread_index(i, n, max_pts) == y);
                }
            }
        }
    }
}

proof fn index_in_range(i: nat, n: nat, max_pts: nat)
    requires
        0 < n <= u32::MAX,
        i < max_pts <= u32::MAX,
    ensures
        spread_index(i, n, max_pts) < n,
{
    if max_pts > 1 {
        fractions_are_at_most_one(i, (max_pts - 1) as nat);
        a_fraction_of_n_is_within_n(
            Double { bits: fraction_mag(i, (max_pts - 1) as nat) as u64 },
            (n - 1) as nat,
        );
    }
}

/// The items of `xs` at the given indices.
pub open spec fn picked(xs: Seq<Double>, at: Seq<usize>) -> Seq<Double> {
    Seq::new(at.len(), |k: int| xs[at[k] as int])
}

fn insert(s: &mut Vec<usize>, x: usize)
    ensures
        final(s)@ == inserted(old(s)@, x),
    decreases old(s)@.len(),
{
    let n: usize = s.len();
    if n == 0 {
        s.push(x);
    } else {
        let last: usize = s[n - 1];
        if last < x {
            s.push(x);
        } else if last > x {
            s.pop();
            assert(s@ == old(s)@.drop_last());
            insert(s, x);
            s.push(last);
        }
    }
}

/// The indices that a thinned spectrum keeps.
fn spread_indices(n: u32, max_pts: u32) -> (r: Vec<usize>)
    requires
        0 < n,
    ensures
        r@ == spread(max_pts as nat, n as nat, max_pts as nat),
{
    let mut out: Vec<usize> = Vec::new();
    let mut i: u32 = 0;
    while i < max_pts
        invariant
            i <= max_pts,
            0 < n,
            out@ == spread(i as nat, n as nat, max_pts as nat),
        decreases max_pts - i,
    {
        proof {
            index_in_range(i as nat, n as nat, max_pts as nat);
        }
        let x: usize = if max_pts <= 1 {
            0
        } else {
            Double::fraction(i, max_pts - 1).mul_trunc((n - 1) as u64) as usize
        };
        insert(&mut out, x);
        i = i + 1;
    }
    out
}

fn pick(xs: &Vec<Double>, at: &Vec<usize>) -> (r: Vec<Double>)
    requires
        forall|k: int| 0 <= k < at@.len() ==> (#[trigger] at@[k]) < xs@.len(),
    ensures
        r@ == picked(xs@, at@),
{
    let mut out: Vec<Double> = Vec::new();
    let mut k: usize = 0;
    while k < at.len()
        invariant
            k <= at@.len(),
            forall|j: int| 0 <= j < at@.len() ==> (#[trigger] at@[j]) < xs@.len(),
            out@ == picked(xs@, at@.take(k as int)),
        decreases at@.len() - k,
    {
        let x: Double = xs[at[k]];
        out.push(x);
        k = k + 1;
        assert(out@ =~= picked(xs@, at@.take(k as int)));
    }
    assert(at@.take(k as int) =~= at@);
    out
}

/// A list thinned to about `max_pts` items: all of it where it is no longer,
/// else the items at the spread indices.
pub open spec fn thinned(xs: Seq<Double>, n: nat, max_pts: nat) -> Seq<Double> {
    if n <= max_pts {
        xs
    } else {
        picked(xs, spread(max_pts, n, max_pts))
    }
}

fn copy_doubles(xs: &Vec<Double>, from: usize) -> (r: Vec<Double>)
    requires
        from <= xs@.len(),
    ensures
        r@ == xs@.skip(from as int),
{
    let mut out: Vec<Double> = Vec::new();
    let mut k: usize = from;
    while k < xs.len()
        invariant
            from <= k <= xs@.len(),
            out@ == xs@.subrange(from as int, k as int),
        decreases xs@.len() - k,
    {
        let x: Double = xs[k];
        out.push(x);
        k = k + 1;
        assert(out@ =~= xs@.subrange(from as int, k as int));
    }
    assert(out@ =~= xs@.skip(from as int));
    out
}

/// A spectrum and its frequencies, thinned by the same indices.
pub fn downsample(spec: &Vec<Double>, freqs: &Vec<Double>, max_pts: u32) -> (r: (
    Vec<Double>,
    Vec<Double>,
))
    requires
        spec@.len() <= u32::MAX,
        spec@.len() > max_pts ==> freqs@.len() >= spec@.len(),
    ensures
        r.0@ == thinned(spec@, spec@.len(), max_pts as nat),
        r.1@ == thinned(freqs@, spec@.len(), max_pts as nat),
{
    let n: usize = spec.len();
    if n <= max_pts as usize {
        assert(spec@.skip(0) =~= spec@);
        assert(freqs@.skip(0) =~= freqs@);
        return (copy_doubles(spec, 0), copy_doubles(freqs, 0));
    }
    let at = spread_indices(n as u32, max_pts);
    proof {
        thinning_keeps_order(max_pts as nat, n as nat, max_pts as nat);
        assert forall|k: int| 0 <= k < at@.len() implies (#[trigger] at@[k]) < n by {
            assert(at@.contains(at@[k]));
        }
    }
    (pick(spec, &at), pick(freqs, &at))
}

/// The spectral analysis of one capture.
#[derive(Debug)]
pub struct Analysis {
    pub thd_pct: Double,
    pub thdn_pct: Double,
    pub fundamental_hz: Double,
    pub fundamental_dbfs: Double,
    pub linear_rms: Double,
    pub noise_floor_dbfs: Double,
    pub harmonic_levels: Vec<(Double, Double)>,
    pub spectrum: Vec<Double>,
    pub freqs: Vec<Double>,
    pub clipping: bool,
    pub ac_coupled: bool,
}

impl Analysis {
    /// A spectrum that is cut has a first frequency to cut with it, and one
    /// that is thinned has a frequency for each bin.
    pub open spec fn wf(&self) -> bool {
        &&& self.spectrum@.len() <= u32::MAX
        &&& self.spectrum@.len() > 1 ==> self.freqs@.len() > 0
        &&& self.spectrum@.len() > MAX_BINS + 1 ==> self.freqs@.len() >= self.spectrum@.len()
    }
}

/// A voltage and the same in dBu.
#[derive(Debug, Clone, Copy)]
pub struct Volts {
    pub vrms: Double,
    pub dbu: Double,
}

/// What the calibration makes of a point's levels.
#[derive(Debug, Clone, Copy)]
pub struct PointVolts {
    pub output: Option<Volts>,
    pub input: Option<Volts>,
    /// Input less output, in dB.
    pub difference_db: Double,
    pub vrms_at_0dbfs_out: Option<Double>,
    pub vrms_at_0dbfs_in: Option<Double>,
}

impl PointVolts {
    /// The gain is known where both levels are.
    pub open spec fn gain_db(self) -> Option<Double> {
        if self.output is Some && self.input is Some {
            Some(self.difference_db)
        } else {
            None
        }
    }
}

/// The voltage of a level, if known.
pub open spec fn vrms_of(v: Option<Volts>) -> Option<Double> {
    match v {
        Some(x) => Some(x.vrms),
        None => None,
    }
}

/// The dBu of a level, if known.
pub open spec fn dbu_of(v: Option<Volts>) -> Option<Double> {
    match v {
        Some(x) => Some(x.dbu),
        None => None,
    }
}

/// The processing that was active when a point was measured.
#[derive(Debug, Clone, Copy)]
pub struct Tier1Ctx {
    pub mic: MicCorrection,
    pub spl_offset_db: Option<Double>,
    pub weighting: Weighting,
    pub time_integration: Integration,
    /// Always none here: smoothing is applied on display only.
    pub smoothing_bpo: Option<u32>,
}

impl Default for Tier1Ctx {
    fn default() -> (r: Self)
        ensures
            !r.mic.curve_loaded,
            r.spl_offset_db is None,
            r.weighting == Weighting::Off,
            r.time_integration == Integration::Off,
            r.smoothing_bpo is None,
    {
        Tier1Ctx {
            mic: MicCorrection { curve_loaded: false, enabled: false },
            spl_offset_db: None,
            weighting: Weighting::Off,
            time_integration: Integration::Off,
            smoothing_bpo: None,
        }
    }
}

/// The most bins that a point's frame carries.
pub const MAX_BINS: u32 = 1000;

/// A harmonic as `[hz, amplitude]`.
pub open spec fn harmonic(h: (Double, Double)) -> JsonV {
    JsonV::Arr(seq![finite_or_null(h.0), finite_or_null(h.1)])
}

/// The harmonics as the frame lists them.
pub open spec fn harmonic_views(hs: Seq<(Double, Double)>) -> Seq<JsonV> {
    hs.map_values(|h: (Double, Double)| harmonic(h))
}

/// The bins of a frame: without the first (that of zero frequency) and
/// thinned, where there is more than one.
pub open spec fn frame_bins(xs: Seq<Double>, n: nat) -> Seq<Double> {
    if n > 1 {
        thinned(xs.skip(1), (n - 1) as nat, MAX_BINS as nat)
    } else {
        xs
    }
}

/// The optional band count as JSON.
pub open spec fn bpo_or_null(n: Option<u32>) -> JsonV {
    match n {
        Some(b) => JsonV::Uint(b as u64),
        None => JsonV::Null,
    }
}

/// The `measurement/frequency_response/point` frame.
pub open spec fn point_frame_of(
    r: &Analysis,
    volts: PointVolts,
    n: u64,
    cmd: Seq<char>,
    level_dbfs: Double,
    freq_hz: Option<Double>,
    ctx: Tier1Ctx,
) -> JsonV {
    let f = JsonV::obj().with(
        "type"@,
        JsonV::Str("measurement/frequency_response/point"@),
    ).with("cmd"@, JsonV::Str(cmd)).with("n"@, JsonV::Uint(n)).with(
        "drive_db"@,
        finite_or_null(level_dbfs),
    ).with("thd_pct"@, finite_or_null(r.thd_pct)).with(
        "thdn_pct"@,
        finite_or_null(r.thdn_pct),
    ).with("fundamental_hz"@, finite_or_null(r.fundamental_hz)).with(
        "fundamental_dbfs"@,
        finite_or_null(r.fundamental_dbfs),
    ).with("linear_rms"@, finite_or_null(r.linear_rms)).with(
        "harmonic_levels"@,
        JsonV::Arr(harmonic_views(r.harmonic_levels@)),
    ).with("noise_floor_dbfs"@, finite_or_null(r.noise_floor_dbfs)).with(
        "spectrum"@,
        JsonV::Arr(double_views(frame_bins(r.spectrum@, r.spectrum@.len()))),
    ).with(
        "freqs"@,
        JsonV::Arr(double_views(frame_bins(r.freqs@, r.spectrum@.len()))),
    ).with("clipping"@, JsonV::Bool(r.clipping)).with(
        "ac_coupled"@,
        JsonV::Bool(r.ac_coupled),
    ).with("out_vrms"@, double_or_null(vrms_of(volts.output))).with(
        "out_dbu"@,
        double_or_null(dbu_of(volts.output)),
    ).with("in_vrms"@, double_or_null(vrms_of(volts.input))).with(
        "in_dbu"@,
        double_or_null(dbu_of(volts.input)),
    ).with("gain_db"@, double_or_null(volts.gain_db())).with(
        "vrms_at_0dbfs_out"@,
        double_or_null(volts.vrms_at_0dbfs_out),
    ).with("vrms_at_0dbfs_in"@, double_or_null(volts.vrms_at_0dbfs_in)).with(
        "mic_correction"@,
        JsonV::Str(correction_tag(ctx.mic.curve_loaded, ctx.mic.enabled)),
    ).with("spl_offset_db"@, double_or_null(ctx.spl_offset_db)).with(
        "weighting"@,
        JsonV::Str(ctx.weighting.tag_text()),
    ).with("time_integration"@, JsonV::Str(ctx.time_integration.tag_text())).with(
        "smoothing_bpo"@,
        bpo_or_null(ctx.smoothing_bpo),
    );
    match freq_hz {
        Some(x) => f.with("freq_hz"@, finite_or_null(x)),
        None => f,
    }
}

fn harmonics_json(hs: &Vec<(Double, Double)>) -> (r: Json)
    ensures
        r@ == JsonV::Arr(harmonic_views(hs@)),
{
    let mut items: Vec<Json> = Vec::new();
    let mut i: usize = 0;
    while i < hs.len()
        invariant
            i <= hs@.len(),
            views(items@) == harmonic_views(hs@.take(i as int)),
        decreases hs@.len() - i,
    {
        let mut pair: Vec<Json> = Vec::new();
        pair.push(Json::float(hs[i].0));
        pair.push(Json::float(hs[i].1));
        assert(views(pair@) =~= seq![
            finite_or_null(hs@[i as int].0),
            finite_or_null(hs@[i as int].1),
        ]);
        let ghost before = items@;
        items.push(Json::array(pair));
        i = i + 1;
        proof {
            let hd = hs@.take(i as int);
            assert(items@.last()@ == harmonic(hd.last()));
            assert(hd.drop_last() =~= hs@.take(i - 1));
            assert(views(items@) =~= views(before).push(items@.last()@));
            assert(harmonic_views(hd) =~= harmonic_views(hd.drop_last()).push(harmonic(hd.last())));
        }
    }
    assert(hs@.take(i as int) =~= hs@);
    Json::array(items)
}

/// The voltage of a level as JSON.
fn vrms_json(v: Option<Volts>) -> (r: Json)
    ensures
        r@ == double_or_null(vrms_of(v)),
{
    match v {
        Some(x) => Json::opt_float(Some(x.vrms)),
        None => Json::opt_float(None),
    }
}

/// The dBu of a level as JSON.
fn dbu_json(v: Option<Volts>) -> (r: Json)
    ensures
        r@ == double_or_null(dbu_of(v)),
{
    match v {
        Some(x) => Json::opt_float(Some(x.dbu)),
        None => Json::opt_float(None),
    }
}

/// The frame of one measured point.
pub fn sweep_point_frame(
    r: &Analysis,
    volts: PointVolts,
    n: u64,
    cmd: &str,
    level_dbfs: Double,
    freq_hz: Option<Double>,
    ctx: Tier1Ctx,
) -> (f: Json)
    requires
        r.wf(),
    ensures
        f@ == point_frame_of(r, volts, n, cmd@, level_dbfs, freq_hz, ctx),
{
    let (bins, freqs) = if r.spectrum.len() > 1 {
        downsample(&copy_doubles(&r.spectrum, 1), &copy_doubles(&r.freqs, 1), MAX_BINS)
    } else {
        assert(r.spectrum@.skip(0) =~= r.spectrum@);
        assert(r.freqs@.skip(0) =~= r.freqs@);
        (copy_doubles(&r.spectrum, 0), copy_doubles(&r.freqs, 0))
    };
    let gain_db: Option<Double> = if volts.output.is_some() && volts.input.is_some() {
        Some(volts.difference_db)
    } else {
        None
    };
    let smoothing = match ctx.smoothing_bpo {
        Some(b) => Json::Uint(b as u64),
        None => Json::Null,
    };
    let f = Json::obj().with("type", Json::string("measurement/frequency_response/point")).with(
        "cmd",
        Json::string(cmd),
    ).with("n", Json::Uint(n)).with("drive_db", Json::float(level_dbfs)).with(
        "thd_pct",
        Json::float(r.thd_pct),
    ).with("thdn_pct", Json::float(r.thdn_pct)).with(
        "fundamental_hz",
        Json::float(r.fundamental_hz),
    ).with("fundamental_dbfs", Json::float(r.fundamental_dbfs)).with(
        "linear_rms",
        Json::float(r.linear_rms),
    ).with("harmonic_levels", harmonics_json(&r.harmonic_levels)).with(
        "noise_floor_dbfs",
        Json::float(r.noise_floor_dbfs),
    ).with("spectrum", Json::floats(&bins)).with("freqs", Json::floats(&freqs)).with(
        "clipping",
        Json::Bool(r.clipping),
    ).with("ac_coupled", Json::Bool(r.ac_coupled)).with(
        "out_vrms",
        vrms_json(volts.output),
    ).with("out_dbu", dbu_json(volts.output)).with("in_vrms", vrms_json(volts.input)).with(
        "in_dbu",
        dbu_json(volts.input),
    ).with("gain_db", Json::opt_float(gain_db)).with(
        "vrms_at_0dbfs_out",
        Json::opt_float(volts.vrms_at_0dbfs_out),
    ).with("vrms_at_0dbfs_in", Json::opt_float(volts.vrms_at_0dbfs_in)).with(
        "mic_correction",
        Json::string(ctx.mic.tag()),
    ).with("spl_offset_db", Json::opt_float(ctx.spl_offset_db)).with(
        "weighting",
        Json::string(ctx.weighting.tag()),
    ).with("time_integration", Json::string(ctx.time_integration.tag())).with(
        "smoothing_bpo",
        smoothing,
    );
    match freq_hz {
        Some(x) => f.with("freq_hz", Json::float(x)),
        None => f,
    }
}

/// A point's frame carries each result of the analysis under its own name, and
/// the tone that was played: its place in the run, its level, its frequency.
pub proof fn an_analysis_is_told_by_name(
    r: Analysis,
    volts: PointVolts,
    n: u64,
    cmd: Seq<char>,
    driven: Double,
    at_hz: Option<Double>,
    ctx: Tier1Ctx,
)
    ensures
        ({
            let frame = point_frame_of(&r, volts, n, cmd, driven, at_hz, ctx);
            &&& frame.field("type"@) == Some(JsonV::Str("measurement/frequency_response/point"@))
            &&& frame.field("cmd"@) == Some(JsonV::Str(cmd))
            &&& frame.field("n"@) == Some(JsonV::Uint(n))
            &&& frame.field("drive_db"@) == Some(finite_or_null(driven))
            &&& at_hz is None ==> frame.field("freq_hz"@) is None
            &&& at_hz matches Some(hz) ==> frame.field("freq_hz"@) == Some(finite_or_null(hz))
            &&& frame.field("thd_pct"@) == Some(finite_or_null(r.thd_pct))
            &&& frame.field("thdn_pct"@) == Some(finite_or_null(r.thdn_pct))
            &&& frame.field("fundamental_hz"@) == Some(finite_or_null(r.fundamental_hz))
            &&& frame.field("fundamental_dbfs"@) == Some(finite_or_null(r.fundamental_dbfs))
            &&& frame.field("linear_rms"@) == Some(finite_or_null(r.linear_rms))
            &&& frame.field("noise_floor_dbfs"@) == Some(finite_or_null(r.noise_floor_dbfs))
            &&& frame.field("clipping"@) == Some(JsonV::Bool(r.clipping))
            &&& frame.field("ac_coupled"@) == Some(JsonV::Bool(r.ac_coupled))
            &&& frame.field("harmonic_levels"@) matches Some(JsonV::Arr(told)) && told.len()
                == r.harmonic_levels@.len() && forall|i: int|
                0 <= i < told.len() ==> (#[trigger] told[i]) == JsonV::Arr(
                    seq![
                        finite_or_null(r.harmonic_levels@[i].0),
                        finite_or_null(r.harmonic_levels@[i].1),
                    ],
                )
        }),
{
    fields_read_back();
    reveal_strlit("type");
    reveal_strlit("cmd");
    reveal_strlit("n");
    reveal_strlit("drive_db");
    reveal_strlit("thd_pct");
    reveal_strlit("thdn_pct");
    reveal_strlit("fundamental_hz");
    reveal_strlit("fundamental_dbfs");
    reveal_strlit("linear_rms");
    reveal_strlit("harmonic_levels");
    reveal_strlit("noise_floor_dbfs");
    reveal_strlit("spectrum");
    reveal_strlit("freqs");
    reveal_strlit("clipping");
    reveal_strlit("ac_coupled");
    reveal_strlit("out_vrms");
    reveal_strlit("out_dbu");
    reveal_strlit("in_vrms");
    reveal_strlit("in_dbu");
    reveal_strlit("gain_db");
    reveal_strlit("vrms_at_0dbfs_out");
    reveal_strlit("vrms_at_0dbfs_in");
    reveal_strlit("mic_correction");
    reveal_strlit("spl_offset_db");
    reveal_strlit("weighting");
    reveal_strlit("time_integration");
    reveal_strlit("smoothing_bpo");
    reveal_strlit("freq_hz");
    assert("type"@.len() == 4);
    assert("cmd"@.len() == 3);
    assert("n"@.len() == 1);
    assert("drive_db"@.len() == 8);
    assert("thd_pct"@.len() == 7);
    assert("thdn_pct"@.len() == 8);
    assert("fundamental_hz"@.len() == 14);
    assert("fundamental_dbfs"@.len() == 16);
    assert("linear_rms"@.len() == 10);
    assert("harmonic_levels"@.len() == 15);
    assert("noise_floor_dbfs"@.len() == 16);
    assert("spectrum"@.len() == 8);
    assert("freqs"@.len() == 5);
    assert("clipping"@.len() == 8);
    assert("ac_coupled"@.len() == 10);
    assert("out_vrms"@.len() == 8);
    assert("out_dbu"@.len() == 7);
    assert("in_vrms"@.len() == 7);
    assert("in_dbu"@.len() == 6);
    assert("gain_db"@.len() == 7);
    assert("vrms_at_0dbfs_out"@.len() == 17);
    assert("vrms_at_0dbfs_in"@.len() == 16);
    assert("mic_correction"@.len() == 14);
    assert("spl_offset_db"@.len() == 13);
    assert("weighting"@.len() == 9);
    assert("time_integration"@.len() == 16);
    assert("smoothing_bpo"@.len() == 13);
    assert("freq_hz"@.len() == 7);
    assert("drive_db"@[0] != "thdn_pct"@[0]);
    assert("drive_db"@[0] != "spectrum"@[0]);
    assert("drive_db"@[0] != "clipping"@[0]);
    assert("drive_db"@[0] != "out_vrms"@[0]);
    assert("thdn_pct"@[0] != "spectrum"@[0]);
    assert("thdn_pct"@[0] != "clipping"@[0]);
    assert("thdn_pct"@[0] != "out_vrms"@[0]);
    assert("spectrum"@[0] != "clipping"@[0]);
    assert("spectrum"@[0] != "out_vrms"@[0]);
    assert("clipping"@[0] != "out_vrms"@[0]);
    assert("thd_pct"@[0] != "out_dbu"@[0]);
    assert("thd_pct"@[0] != "in_vrms"@[0]);
    assert("thd_pct"@[0] != "gain_db"@[0]);
    assert("thd_pct"@[0] != "freq_hz"@[0]);
    assert("out_dbu"@[0] != "in_vrms"@[0]);
    assert("out_dbu"@[0] != "gain_db"@[0]);
    assert("out_dbu"@[0] != "freq_hz"@[0]);
    assert("in_vrms"@[0] != "gain_db"@[0]);
    assert("in_vrms"@[0] != "freq_hz"@[0]);
    assert("gain_db"@[0] != "freq_hz"@[0]);
    assert("fundamental_hz"@[0] != "mic_correction"@[0]);
    assert("fundamental_dbfs"@[0] != "noise_floor_dbfs"@[0]);
    assert("fundamental_dbfs"@[0] != "vrms_at_0dbfs_in"@[0]);
    assert("fundamental_dbfs"@[0] != "time_integration"@[0]);
    assert("noise_floor_dbfs"@[0] != "vrms_at_0dbfs_in"@[0]);
    assert("noise_floor_dbfs"@[0] != "time_integration"@[0]);
    assert("vrms_at_0dbfs_in"@[0] != "time_integration"@[0]);
    assert("linear_rms"@[0] != "ac_coupled"@[0]);
    assert("spl_offset_db"@[1] != "smoothing_bpo"@[1]);
}

/// A point's frame carries each voltage under its own name: the output's as
/// the output's and the input's as the input's, null where it is not known;
/// the gain only where both are; and the processing that was active.
pub proof fn voltages_are_told_by_name(
    r: Analysis,
    volts: PointVolts,
    n: u64,
    cmd: Seq<char>,
    driven: Double,
    at_hz: Option<Double>,
    ctx: Tier1Ctx,
)
    ensures
        ({
            let frame = point_frame_of(&r, volts, n, cmd, driven, at_hz, ctx);
            &&& volts.output is None ==> frame.field("out_vrms"@) == Some(JsonV::Null)
                && frame.field("out_dbu"@) == Some(JsonV::Null)
            &&& volts.output matches Some(v) ==> frame.field("out_vrms"@) == Some(
                finite_or_null(v.vrms),
            ) && frame.field("out_dbu"@) == Some(finite_or_null(v.dbu))
            &&& volts.input is None ==> frame.field("in_vrms"@) == Some(JsonV::Null)
                && frame.field("in_dbu"@) == Some(JsonV::Null)
            &&& volts.input matches Some(v) ==> frame.field("in_vrms"@) == Some(
                finite_or_null(v.vrms),
            ) && frame.field("in_dbu"@) == Some(finite_or_null(v.dbu))
            &&& frame.field("gain_db"@) == Some(
                if volts.output is None || volts.input is None {
                    JsonV::Null
                } else {
                    finite_or_null(volts.difference_db)
                },
            )
            &&& frame.field("vrms_at_0dbfs_out"@) == Some(double_or_null(volts.vrms_at_0dbfs_out))
            &&& frame.field("vrms_at_0dbfs_in"@) == Some(double_or_null(volts.vrms_at_0dbfs_in))
            &&& frame.field("mic_correction"@) == Some(
                JsonV::Str(correction_tag(ctx.mic.curve_loaded, ctx.mic.enabled)),
            )
            &&& frame.field("spl_offset_db"@) == Some(double_or_null(ctx.spl_offset_db))
            &&& frame.field("weighting"@) == Some(JsonV::Str(ctx.weighting.tag_text()))
            &&& frame.field("time_integration"@) == Some(
                JsonV::Str(ctx.time_integration.tag_text()),
            )
            &&& ctx.smoothing_bpo is None ==> frame.field("smoothing_bpo"@) == Some(JsonV::Null)
            &&& ctx.smoothing_bpo matches Some(b) ==> frame.field("smoothing_bpo"@) == Some(
                JsonV::Uint(b as u64),
            )
        }),
{
    fields_read_back();
    reveal_strlit("type");
    reveal_strlit("cmd");
    reveal_strlit("n");
    reveal_strlit("drive_db");
    reveal_strlit("thd_pct");
    reveal_strlit("thdn_pct");
    reveal_strlit("fundamental_hz");
    reveal_strlit("fundamental_dbfs");
    reveal_strlit("linear_rms");
    reveal_strlit("harmonic_levels");
    reveal_strlit("noise_floor_dbfs");
    reveal_strlit("spectrum");
    reveal_strlit("freqs");
    reveal_strlit("clipping");
    reveal_strlit("ac_coupled");
    reveal_strlit("out_vrms");
    reveal_strlit("out_dbu");
    reveal_strlit("in_vrms");
    reveal_strlit("in_dbu");
    reveal_strlit("gain_db");
    reveal_strlit("vrms_at_0dbfs_out");
    reveal_strlit("vrms_at_0dbfs_in");
    reveal_strlit("mic_correction");
    reveal_strlit("spl_offset_db");
    reveal_strlit("weighting");
    reveal_strlit("time_integration");
    reveal_strlit("smoothing_bpo");
    reveal_strlit("freq_hz");
    assert("type"@.len() == 4);
    assert("cmd"@.len() == 3);
    assert("n"@.len() == 1);
    assert("drive_db"@.len() == 8);
    assert("thd_pct"@.len() == 7);
    assert("thdn_pct"@.len() == 8);
    assert("fundamental_hz"@.len() == 14);
    assert("fundamental_dbfs"@.len() == 16);
    assert("linear_rms"@.len() == 10);
    assert("harmonic_levels"@.len() == 15);
    assert("noise_floor_dbfs"@.len() == 16);
    assert("spectrum"@.len() == 8);
    assert("freqs"@.len() == 5);
    assert("clipping"@.len() == 8);
    assert("ac_coupled"@.len() == 10);
    assert("out_vrms"@.len() == 8);
    assert("out_dbu"@.len() == 7);
    assert("in_vrms"@.len() == 7);
    assert("in_dbu"@.len() == 6);
    assert("gain_db"@.len() == 7);
    assert("vrms_at_0dbfs_out"@.len() == 17);
    assert("vrms_at_0dbfs_in"@.len() == 16);
    assert("mic_correction"@.len() == 14);
    assert("spl_offset_db"@.len() == 13);
    assert("weighting"@.len() == 9);
    assert("time_integration"@.len() == 16);
    assert("smoothing_bpo"@.len() == 13);
    assert("freq_hz"@.len() == 7);
    assert("drive_db"@[0] != "thdn_pct"@[0]);
    assert("drive_db"@[0] != "spectrum"@[0]);
    assert("drive_db"@[0] != "clipping"@[0]);
    assert("drive_db"@[0] != "out_vrms"@[0]);
    assert("thdn_pct"@[0] != "spectrum"@[0]);
    assert("thdn_pct"@[0] != "clipping"@[0]);
    assert("thdn_pct"@[0] != "out_vrms"@[0]);
    assert("spectrum"@[0] != "clipping"@[0]);
    assert("spectrum"@[0] != "out_vrms"@[0]);
    assert("clipping"@[0] != "out_vrms"@[0]);
    assert("thd_pct"@[0] != "out_dbu"@[0]);
    assert("thd_pct"@[0] != "in_vrms"@[0]);
    assert("thd_pct"@[0] != "gain_db"@[0]);
    assert("thd_pct"@[0] != "freq_hz"@[0]);
    assert("out_dbu"@[0] != "in_vrms"@[0]);
    assert("out_dbu"@[0] != "gain_db"@[0]);
    assert("out_dbu"@[0] != "freq_hz"@[0]);
    assert("in_vrms"@[0] != "gain_db"@[0]);
    assert("in_vrms"@[0] != "freq_hz"@[0]);
    assert("gain_db"@[0] != "freq_hz"@[0]);
    assert("fundamental_hz"@[0] != "mic_correction"@[0]);
    assert("fundamental_dbfs"@[0] != "noise_floor_dbfs"@[0]);
    assert("fundamental_dbfs"@[0] != "vrms_at_0dbfs_in"@[0]);
    assert("fundamental_dbfs"@[0] != "time_integration"@[0]);
    assert("noise_floor_dbfs"@[0] != "vrms_at_0dbfs_in"@[0]);
    assert("noise_floor_dbfs"@[0] != "time_integration"@[0]);
    assert("vrms_at_0dbfs_in"@[0] != "time_integration"@[0]);
    assert("linear_rms"@[0] != "ac_coupled"@[0]);
    assert("spl_offset_db"@[1] != "smoothing_bpo"@[1]);
}

/// The items of `xs` at the given places.
pub open spec fn items_at(xs: Seq<Double>, at: Seq<int>) -> Seq<Double> {
    Seq::new(at.len(), |k: int| xs[at[k]])
}

/// The bins of a frame are bins of the spectrum, each beside its own
/// frequency, in rising order, never the one of zero frequency where there is
/// another; and where they are few enough, all the others are there.
pub proof fn bins_keep_their_frequencies(
    r: Analysis,
    volts: PointVolts,
    n: u64,
    cmd: Seq<char>,
    driven: Double,
    at_hz: Option<Double>,
    ctx: Tier1Ctx,
)
    requires
        r.wf(),
        r.freqs@.len() == r.spectrum@.len(),
    ensures
        ({
            let frame = point_frame_of(&r, volts, n, cmd, driven, at_hz, ctx);
            let len = r.spectrum@.len();
            exists|at: Seq<int>|
                {
                    &&& frame.field("spectrum"@) == Some(
                        JsonV::Arr(double_views(#[trigger] items_at(r.spectrum@, at))),
                    )
                    &&& frame.field("freqs"@) == Some(
                        JsonV::Arr(double_views(items_at(r.freqs@, at))),
                    )
                    &&& forall|k: int|
                        0 <= k < at.len() ==> 0 <= #[trigger] at[k] < len && (len > 1 ==> at[k]
                            >= 1)
                    &&& forall|j: int, k: int| 0 <= j < k < at.len() ==> at[j] < at[k]
                    &&& len <= 1001 ==> at.len() == (if len > 1 {
                        len - 1
                    } else {
                        len as int
                    })
                }
        }),
{
    fields_read_back();
    reveal_strlit("type");
    reveal_strlit("cmd");
    reveal_strlit("n");
    reveal_strlit("drive_db");
    reveal_strlit("thd_pct");
    reveal_strlit("thdn_pct");
    reveal_strlit("fundamental_hz");
    reveal_strlit("fundamental_dbfs");
    reveal_strlit("linear_rms");
    reveal_strlit("harmonic_levels");
    reveal_strlit("noise_floor_dbfs");
    reveal_strlit("spectrum");
    reveal_strlit("freqs");
    reveal_strlit("clipping");
    reveal_strlit("ac_coupled");
    reveal_strlit("out_vrms");
    reveal_strlit("out_dbu");
    reveal_strlit("in_vrms");
    reveal_strlit("in_dbu");
    reveal_strlit("gain_db");
    reveal_strlit("vrms_at_0dbfs_out");
    reveal_strlit("vrms_at_0dbfs_in");
    reveal_strlit("mic_correction");
    reveal_strlit("spl_offset_db");
    reveal_strlit("weighting");
    reveal_strlit("time_integration");
    reveal_strlit("smoothing_bpo");
    reveal_strlit("freq_hz");
    assert("type"@.len() == 4);
    assert("cmd"@.len() == 3);
    assert("n"@.len() == 1);
    assert("drive_db"@.len() == 8);
    assert("thd_pct"@.len() == 7);
    assert("thdn_pct"@.len() == 8);
    assert("fundamental_hz"@.len() == 14);
    assert("fundamental_dbfs"@.len() == 16);
    assert("linear_rms"@.len() == 10);
    assert("harmonic_levels"@.len() == 15);
    assert("noise_floor_dbfs"@.len() == 16);
    assert("spectrum"@.len() == 8);
    assert("freqs"@.len() == 5);
    assert("clipping"@.len() == 8);
    assert("ac_coupled"@.len() == 10);
    assert("out_vrms"@.len() == 8);
    assert("out_dbu"@.len() == 7);
    assert("in_vrms"@.len() == 7);
    assert("in_dbu"@.len() == 6);
    assert("gain_db"@.len() == 7);
    assert("vrms_at_0dbfs_out"@.len() == 17);
    assert("vrms_at_0dbfs_in"@.len() == 16);
    assert("mic_correction"@.len() == 14);
    assert("spl_offset_db"@.len() == 13);
    assert("weighting"@.len() == 9);
    assert("time_integration"@.len() == 16);
    assert("smoothing_bpo"@.len() == 13);
    assert("freq_hz"@.len() == 7);
    assert("drive_db"@[0] != "thdn_pct"@[0]);
    assert("drive_db"@[0] != "spectrum"@[0]);
    assert("drive_db"@[0] != "clipping"@[0]);
    assert("drive_db"@[0] != "out_vrms"@[0]);
    assert("thdn_pct"@[0] != "spectrum"@[0]);
    assert("thdn_pct"@[0] != "clipping"@[0]);
    assert("thdn_pct"@[0] != "out_vrms"@[0]);
    assert("spectrum"@[0] != "clipping"@[0]);
    assert("spectrum"@[0] != "out_vrms"@[0]);
    assert("clipping"@[0] != "out_vrms"@[0]);
    assert("thd_pct"@[0] != "out_dbu"@[0]);
    assert("thd_pct"@[0] != "in_vrms"@[0]);
    assert("thd_pct"@[0] != "gain_db"@[0]);
    assert("thd_pct"@[0] != "freq_hz"@[0]);
    assert("out_dbu"@[0] != "in_vrms"@[0]);
    assert("out_dbu"@[0] != "gain_db"@[0]);
    assert("out_dbu"@[0] != "freq_hz"@[0]);
    assert("in_vrms"@[0] != "gain_db"@[0]);
    assert("in_vrms"@[0] != "freq_hz"@[0]);
    assert("gain_db"@[0] != "freq_hz"@[0]);
    assert("fundamental_hz"@[0] != "mic_correction"@[0]);
    assert("fundamental_dbfs"@[0] != "noise_floor_dbfs"@[0]);
    assert("fundamental_dbfs"@[0] != "vrms_at_0dbfs_in"@[0]);
    assert("fundamental_dbfs"@[0] != "time_integration"@[0]);
    assert("noise_floor_dbfs"@[0] != "vrms_at_0dbfs_in"@[0]);
    assert("noise_floor_dbfs"@[0] != "time_integration"@[0]);
    assert("vrms_at_0dbfs_in"@[0] != "time_integration"@[0]);
    assert("linear_rms"@[0] != "ac_coupled"@[0]);
    assert("spl_offset_db"@[1] != "smoothing_bpo"@[1]);
    let len = r.spectrum@.len();
    let max = MAX_BINS as nat;
    let at = if len <= 1 {
        Seq::new(len, |k: int| k)
    } else if len - 1 <= max {
        Seq::new((len - 1) as nat, |k: int| k + 1)
    } else {
        let s = spread(max, (len - 1) as nat, max);
        thinning_keeps_order(max, (len - 1) as nat, max);
        assert forall|k: int| 0 <= k < s.len() implies (#[trigger] s[k]) < len - 1 by {
            assert(s.contains(s[k]));
        }
        Seq::new(s.len(), |k: int| s[k] as int + 1)
    };
    assert(frame_bins(r.spectrum@, len) =~= items_at(r.spectrum@, at));
    assert(frame_bins(r.freqs@, len) =~= items_at(r.freqs@, at));
    assert forall|j: int, k: int| 0 <= j < k < at.len() implies at[j] < at[k] by {
        if len - 1 > max {
            thinning_keeps_order(max, (len - 1) as nat, max);
        }
    }
}

} // verus!
