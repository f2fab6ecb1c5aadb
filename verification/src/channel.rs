//! Per-channel monitor state: the analysis rings, the reconnect bookkeeping,
//! the dual-resolution LF band and the fractional-octave integrator.
use std::collections::VecDeque;
use vstd::prelude::*;

use crate::double::{excess, nearest_even, two_to, two_to_grows, Double, Single};
use crate::mic::MicCorrection;
use crate::reconnect::ReconnectState;
use crate::ring::{extend_and_trim, newest};
use crate::settings::Integration;

verus! {

/// The LF band is worth running only when its FFT is strictly longer than the
/// live one.
pub fn lf_band_enabled(lf_fft_n: u32, fft_n: u32) -> (r: bool)
    ensures
        r == (lf_fft_n > fft_n),
{
    lf_fft_n > fft_n
}

/// The bounds of the LF cadence, 1 and 4096, as doubles.
pub const CADENCE_MIN: u64 = 0x3FF0_0000_0000_0000;

pub const CADENCE_MAX: u64 = 0x40B0_0000_0000_0000;

/// Hops per tick as a cadence in ticks: rounded, at least 1, at most 4096.
/// What is no number counts as no hop.
pub open spec fn cadence(hops: Double) -> int {
    if hops.nan() || hops.below(Double { bits: CADENCE_MIN }) {
        1
    } else if !hops.below(Double { bits: CADENCE_MAX }) {
        4096
    } else {
        hops.times_rounded(1) as int
    }
}

/// Ticks between LF recomputes. `hops` is the overlap hop of the LF FFT over
/// the refresh interval; a hop shorter than a tick recomputes every tick.
pub fn lf_recompute_every(hops: Double) -> (r: u32)
    ensures
        r == cadence(hops),
        1 <= r <= 4096,
{
    if hops.is_nan() || hops.lt(Double::new(CADENCE_MIN)) {
        return 1;
    }
    if !hops.lt(Double::new(CADENCE_MAX)) {
        return 4096;
    }
    proof {
        cadence_in_range(hops);
    }
    hops.mul_round(1) as u32
}

proof fn cadence_in_range(hops: Double)
    requires
        CADENCE_MIN <= hops.bits < CADENCE_MAX,
    ensures
        1 <= hops.times_rounded(1) <= 4096,
{
    let sig = hops.significand();
    let e = -hops.scale();
    assert(sig * 1 == sig);
    assert(excess(sig) == 0);
    assert(two_to(0) == 1);
    assert(nearest_even(sig, 1) == sig);
    assert(hops.mag() == hops.bits);
    assert(1023 <= hops.mag() / 0x10_0000_0000_0000 <= 1034);
    assert(41 <= e <= 52);
    two_to_grows(40, (e - 1) as nat);
    two_to_grows(e as nat, 52);
    assert(two_to(40) == 0x100_0000_0000) by {
        reveal_with_fuel(two_to, 41);
    }
    assert(two_to(52) == 0x10_0000_0000_0000) by {
        reveal_with_fuel(two_to, 53);
    }
    let d = two_to(e as nat);
    let h = two_to((e - 1) as nat);
    assert(d == 2 * h);
    assert(0x10_0000_0000_0000 <= sig < 0x20_0000_0000_0000);
    assert((sig + h) / d >= 1) by (nonlinear_arith)
        requires
            sig >= d,
            d > 0,
            h >= 0,
    ;
    assert((sig + h) / d <= 4096) by (nonlinear_arith)
        requires
            sig < 4096 * d,
            d == 2 * h,
            h > 0,
    ;
}

/// Which ring a ring-buffered mode fills.
#[derive(Clone, Copy, Debug, PartialEq, Eq, Structural)]
pub enum RingKind {
    Cwt,
    Cqt,
    Reassigned,
}

/// The integrator behind the `fractional_octave_leq` frames: which kind, over
/// how many bands.
#[derive(Clone, Copy, Debug, PartialEq, Eq, Structural)]
pub struct Integrator {
    pub mode: Integration,
    pub n_bands: usize,
}

/// The integrator of a mode; `off` has none.
pub open spec fn integrator_for(mode: Integration, n_bands: usize) -> Option<Integrator> {
    if mode == Integration::Off {
        None
    } else {
        Some(Integrator { mode, n_bands })
    }
}

impl Integrator {
    pub fn for_mode(mode: Integration, n_bands: usize) -> (r: Option<Integrator>)
        ensures
            r == integrator_for(mode, n_bands),
    {
        if mode == Integration::Off {
            None
        } else {
            Some(Integrator { mode, n_bands })
        }
    }
}

/// Dual-resolution low-frequency state of one channel: a long ring, the
/// smoothed spectrum made from it, the overlap-hop counter, and the smoother's
/// bin count with the time of its last update.
pub struct LfState {
    pub ring: VecDeque<Single>,
    /// The latest smoothed half-spectrum; none until the ring first fills.
    pub spec_cache: Option<Vec<Double>>,
    pub ticks_since_recompute: u32,
    /// Bins of the smoother, once it is built.
    pub ema_bins: Option<usize>,
    pub ema_last_ts: Option<u64>,
}

/// The counter after a push to a full ring that does not recompute.
pub open spec fn tick_on(ticks: u32) -> u32 {
    if ticks < u32::MAX {
        (ticks + 1) as u32
    } else {
        u32::MAX
    }
}

impl LfState {
    /// Nothing held, and the first full ring recomputes at once.
    pub open spec fn is_clear(&self) -> bool {
        &&& self.ring@.len() == 0
        &&& self.spec_cache is None
        &&& self.ticks_since_recompute == u32::MAX
        &&& self.ema_bins is None
        &&& self.ema_last_ts is None
    }

    pub fn new() -> (r: Self)
        ensures
            r.is_clear(),
    {
        LfState {
            ring: VecDeque::new(),
            spec_cache: None,
            ticks_since_recompute: u32::MAX,
            ema_bins: None,
            ema_last_ts: None,
        }
    }

    /// True when a disabled band would leave stale state behind.
    pub open spec fn stale(&self) -> bool {
        self.ring@.len() > 0 || self.spec_cache is Some
    }

    pub fn is_stale(&self) -> (r: bool)
        ensures
            r == self.stale(),
    {
        self.ring.len() > 0 || self.spec_cache.is_some()
    }

    /// The state with its smoother pointed at `n_bins` bins, built anew or kept.
    pub open spec fn smooths(&self, before: &LfState, n_bins: usize, rebuilt: bool) -> bool {
        &&& rebuilt == (before.ema_bins != Some(n_bins))
        &&& self.ema_bins == Some(n_bins)
        &&& self.ema_last_ts == (if rebuilt {
            None
        } else {
            before.ema_last_ts
        })
        &&& self.ring == before.ring
        &&& self.spec_cache == before.spec_cache
        &&& self.ticks_since_recompute == before.ticks_since_recompute
    }

    /// Point the smoother at `n_bins` bins: it is rebuilt when the count
    /// changed or it was never built, and its last update is then forgotten.
    /// True when it was rebuilt.
    pub fn ensure_ema(&mut self, n_bins: usize) -> (rebuilt: bool)
        ensures
            final(self).smooths(old(self), n_bins, rebuilt),
    {
        let stale: bool = match self.ema_bins {
            Some(n) => n != n_bins,
            None => true,
        };
        if stale {
            self.ema_bins = Some(n_bins);
            self.ema_last_ts = None;
        }
        stale
    }

    /// Whether a push to the ring calls for a recompute: the ring is full,
    /// and either every tick recomputes or the hop has elapsed.
    pub open spec fn due(&self, new: Seq<Single>, lf_fft_n: u32, recompute_every: u32) -> bool {
        &&& newest(self.ring@ + new, lf_fft_n as nat).len() >= lf_fft_n
        &&& recompute_every <= 1 || self.ticks_since_recompute >= recompute_every
    }

    /// The state after a push, which calls for a recompute or not.
    pub open spec fn took_in(
        &self,
        before: &LfState,
        new: Seq<Single>,
        lf_fft_n: u32,
        recompute_every: u32,
        recompute: bool,
    ) -> bool {
        &&& self.ring@ == newest(before.ring@ + new, lf_fft_n as nat)
        &&& recompute == before.due(new, lf_fft_n, recompute_every)
        &&& self.ticks_since_recompute == (if self.ring@.len() >= lf_fft_n && !recompute {
            tick_on(before.ticks_since_recompute)
        } else {
            before.ticks_since_recompute
        })
        &&& self.spec_cache == before.spec_cache
        &&& self.ema_bins == before.ema_bins
        &&& self.ema_last_ts == before.ema_last_ts
    }

    /// Append `new` to the long ring, keeping the newest `lf_fft_n` samples.
    /// True when the spectrum is to be recomputed now: the ring is full and
    /// the overlap hop has elapsed, which with a cadence of 1 it has on every
    /// push. On a full ring the hop counter moves.
    pub fn push_and_maybe_recompute(
        &mut self,
        new: &Vec<Single>,
        lf_fft_n: u32,
        recompute_every: u32,
    ) -> (recompute: bool)
        ensures
            final(self).took_in(old(self), new@, lf_fft_n, recompute_every, recompute),
    {
        extend_and_trim(&mut self.ring, new, lf_fft_n as usize);
        if self.ring.len() < lf_fft_n as usize {
            return false;
        }
        if recompute_every > 1 && self.ticks_since_recompute < recompute_every {
            self.ticks_since_recompute = self.ticks_since_recompute.saturating_add(1);
            return false;
        }
        true
    }

    /// The state at the begin of a recompute, with what the smoother is told.
    pub open spec fn begins(
        &self,
        before: &LfState,
        n_bins: usize,
        now: u64,
        fresh: bool,
        since: Option<u64>,
    ) -> bool {
        &&& fresh == (before.ema_bins != Some(n_bins))
        &&& since == (match before.ema_last_ts {
            Some(t) => if fresh {
                None
            } else if now >= t {
                Some((now - t) as u64)
            } else {
                Some(0u64)
            },
            None => None,
        })
        &&& self.ema_bins == Some(n_bins)
        &&& self.ema_last_ts == Some(now)
        &&& self.ring == before.ring
        &&& self.spec_cache == before.spec_cache
        &&& self.ticks_since_recompute == before.ticks_since_recompute
    }

    /// Begin a recompute of `n_bins` bins at `now`: whether the smoother is
    /// fresh, and the nanoseconds since its last update (none when it has had
    /// none, so that the nominal hop stands in).
    pub fn begin_update(&mut self, n_bins: usize, now: u64) -> (r: (bool, Option<u64>))
        ensures
            final(self).begins(old(self), n_bins, now, r.0, r.1),
    {
        let rebuilt: bool = self.ensure_ema(n_bins);
        let elapsed: Option<u64> = match self.ema_last_ts {
            Some(t) => if now >= t {
                Some(now - t)
            } else {
                Some(0)
            },
            None => None,
        };
        self.ema_last_ts = Some(now);
        (rebuilt, elapsed)
    }

    /// Cache the smoothed spectrum and start a new hop.
    pub fn finish_update(&mut self, smoothed: Vec<Double>)
        ensures
            final(self).spec_cache == Some(smoothed),
            final(self).ticks_since_recompute == 0,
            final(self).ring == old(self).ring,
            final(self).ema_bins == old(self).ema_bins,
            final(self).ema_last_ts == old(self).ema_last_ts,
    {
        self.spec_cache = Some(smoothed);
        self.ticks_since_recompute = 0;
    }

    /// Drop everything, so that a later re-enable starts from fresh capture.
    pub fn clear(&mut self)
        ensures
            final(self).is_clear(),
    {
        self.ring.clear();
        self.spec_cache = None;
        self.ticks_since_recompute = u32::MAX;
        self.ema_bins = None;
        self.ema_last_ts = None;
    }
}

/// The hop counter after `k` pushes to a full ring, the first right after a
/// recompute.
pub open spec fn ticks_after(k: nat, recompute_every: u32) -> u32
    decreases k,
{
    if k == 0 {
        0
    } else {
        let t = ticks_after((k - 1) as nat, recompute_every);
        if recompute_every > 1 && t < recompute_every {
            tick_on(t)
        } else {
            0
        }
    }
}

/// A cadence of 1 recomputes on every push: a full ring is due whatever is
/// pushed, stays full, and the hop counter never leaves zero.
pub proof fn a_cadence_of_one_recomputes_every_push(
    lf: LfState,
    new: Seq<Single>,
    lf_fft_n: u32,
    k: nat,
)
    requires
        lf.ring@.len() >= lf_fft_n,
    ensures
        lf.due(new, lf_fft_n, 1),
        newest(lf.ring@ + new, lf_fft_n as nat).len() == lf_fft_n,
        ticks_after(k, 1) == 0,
{
}

/// With a cadence of `n` ticks, more than one, a full ring recomputes and
/// then waits `n` pushes before the next recompute.
pub proof fn the_hop_counter_paces_recomputes(k: nat, recompute_every: u32)
    requires
        recompute_every > 1,
        k <= recompute_every,
    ensures
        ticks_after(k, recompute_every) == k,
        k < recompute_every ==> ticks_after(k, recompute_every) < recompute_every,
        ticks_after((recompute_every + 1) as nat, recompute_every) == 0,
    decreases recompute_every - k,
{
    if k < recompute_every {
        the_hop_counter_paces_recomputes((k + 1) as nat, recompute_every);
    } else {
        ticks_reach(recompute_every as nat, recompute_every);
    }
    ticks_reach(k, recompute_every);
}

proof fn ticks_reach(k: nat, recompute_every: u32)
    requires
        recompute_every > 1,
        k <= recompute_every,
    ensures
        ticks_after(k, recompute_every) == k,
    decreases k,
{
    if k > 0 {
        ticks_reach((k - 1) as nat, recompute_every);
    }
}

/// Everything the monitor tracks for one channel.
pub struct ChannelState {
    pub channel: u32,
    pub in_port: String,
    /// The SPL offset; none when the channel has no acoustic calibration.
    pub spl_offset: Option<Double>,
    /// The dBFS to dBu offset; none without an input voltage calibration.
    pub dbu_offset: Option<Double>,
    /// Whether a mic curve is loaded.
    pub curve_loaded: bool,
    pub current_freq: Double,
    pub reconnect: ReconnectState,
    pub cwt_ring: VecDeque<Single>,
    pub cqt_ring: VecDeque<Single>,
    pub reass_ring: VecDeque<Single>,
    /// The sliding window of the FFT path.
    pub fft_ring: VecDeque<Single>,
    pub lf: LfState,
    pub integrator: Option<Integrator>,
    pub last_frac_ts: Option<u64>,
}

/// The fewest samples that the FFT path analyses.
pub const FFT_MIN_FILL: usize = 256;

/// What the FFT path does with a capture.
#[derive(Clone, Copy, Debug, PartialEq, Eq, Structural)]
pub enum FftStep {
    /// Too few samples yet.
    Wait,
    /// Analyse the window; first recompute the LF spectrum when asked.
    Analyse { recompute_lf: bool },
}

/// What the integrator is to do with a set of band levels.
#[derive(Clone, Copy, Debug, PartialEq, Eq, Structural)]
pub struct IntegratorStep {
    /// The integrator is new and starts empty.
    pub fresh: bool,
    /// Nanoseconds since the last set; none for the first, where the refresh
    /// interval stands in.
    pub elapsed: Option<u64>,
}

impl ChannelState {
    pub fn new(
        channel: u32,
        in_port: String,
        spl_offset: Option<Double>,
        dbu_offset: Option<Double>,
        curve_loaded: bool,
        freq_hz: Double,
    ) -> (r: Self)
        ensures
            r.channel == channel,
            r.in_port == in_port,
            r.spl_offset == spl_offset,
            r.dbu_offset == dbu_offset,
            r.curve_loaded == curve_loaded,
            r.current_freq == freq_hz,
            r.reconnect.is_clear(),
            r.cwt_ring@.len() == 0,
            r.cqt_ring@.len() == 0,
            r.reass_ring@.len() == 0,
            r.fft_ring@.len() == 0,
            r.lf.is_clear(),
            r.integrator is None,
            r.last_frac_ts is None,
    {
        ChannelState {
            channel,
            in_port,
            spl_offset,
            dbu_offset,
            curve_loaded,
            current_freq: freq_hz,
            reconnect: ReconnectState::new(),
            cwt_ring: VecDeque::new(),
            cqt_ring: VecDeque::new(),
            reass_ring: VecDeque::new(),
            fft_ring: VecDeque::new(),
            lf: LfState::new(),
            integrator: None,
            last_frac_ts: None,
        }
    }

    /// The mic correction of this channel for a tick.
    pub fn mic_correction(&self, enabled: bool) -> (r: MicCorrection)
        ensures
            r == (MicCorrection { curve_loaded: self.curve_loaded, enabled }),
    {
        MicCorrection { curve_loaded: self.curve_loaded, enabled }
    }

    /// What identifies the channel and its calibration.
    pub open spec fn same_identity(&self, other: &ChannelState) -> bool {
        &&& self.channel == other.channel
        &&& self.in_port == other.in_port
        &&& self.spl_offset == other.spl_offset
        &&& self.dbu_offset == other.dbu_offset
        &&& self.curve_loaded == other.curve_loaded
    }

    /// The samples of a mode's ring.
    pub open spec fn ring_of(&self, kind: RingKind) -> Seq<Single> {
        match kind {
            RingKind::Cwt => self.cwt_ring@,
            RingKind::Cqt => self.cqt_ring@,
            RingKind::Reassigned => self.reass_ring@,
        }
    }

    /// Everything but the rings of the ring-buffered modes.
    pub open spec fn same_but_mode_rings(&self, other: &ChannelState) -> bool {
        &&& self.same_identity(other)
        &&& self.current_freq == other.current_freq
        &&& self.reconnect == other.reconnect
        &&& self.fft_ring == other.fft_ring
        &&& self.lf == other.lf
        &&& self.integrator == other.integrator
        &&& self.last_frac_ts == other.last_frac_ts
    }

    /// Append a block to a mode's ring, keeping its newest `cap` samples.
    pub fn fill_ring(&mut self, kind: RingKind, samples: &Vec<Single>, cap: usize)
        ensures
            final(self).same_but_mode_rings(old(self)),
            forall|k: RingKind| #[trigger]
                final(self).ring_of(k) == (if k == kind {
                    newest(old(self).ring_of(k) + samples@, cap as nat)
                } else {
                    old(self).ring_of(k)
                }),
    {
        match kind {
            RingKind::Cwt => extend_and_trim(&mut self.cwt_ring, samples, cap),
            RingKind::Cqt => extend_and_trim(&mut self.cqt_ring, samples, cap),
            RingKind::Reassigned => extend_and_trim(&mut self.reass_ring, samples, cap),
        }
    }

    /// The channel after a capture was fed to the FFT path, and what comes next.
    pub open spec fn analysed(
        &self,
        before: &ChannelState,
        new: Seq<Single>,
        fft_n: u32,
        lf_enabled: bool,
        lf_fft_n: u32,
        lf_every: u32,
        r: FftStep,
    ) -> bool {
        &&& self.same_identity(before)
        &&& self.current_freq == before.current_freq
        &&& self.reconnect == before.reconnect
        &&& self.cwt_ring == before.cwt_ring
        &&& self.cqt_ring == before.cqt_ring
        &&& self.reass_ring == before.reass_ring
        &&& self.integrator == before.integrator
        &&& self.last_frac_ts == before.last_frac_ts
        &&& self.fft_ring@ == newest(before.fft_ring@ + new, fft_n as nat)
        &&& self.fft_ring@.len() < FFT_MIN_FILL ==> r == FftStep::Wait && self.lf == before.lf
        &&& self.fft_ring@.len() >= FFT_MIN_FILL ==> {
            let due = lf_enabled && before.lf.due(new, lf_fft_n, lf_every);
            &&& r == (FftStep::Analyse { recompute_lf: due })
            &&& lf_enabled ==> self.lf.took_in(&before.lf, new, lf_fft_n, lf_every, due)
            &&& !lf_enabled && before.lf.stale() ==> self.lf.is_clear()
            &&& !lf_enabled && !before.lf.stale() ==> self.lf == before.lf
        }
    }

    /// Feed a capture to the FFT path. Below `FFT_MIN_FILL` samples nothing
    /// else happens; otherwise the LF band takes the block too, or drops what
    /// it holds when it is disabled.
    pub fn fft_step(
        &mut self,
        new: &Vec<Single>,
        fft_n: u32,
        lf_enabled: bool,
        lf_fft_n: u32,
        lf_every: u32,
    ) -> (r: FftStep)
        ensures
            final(self).analysed(old(self), new@, fft_n, lf_enabled, lf_fft_n, lf_every, r),
    {
        extend_and_trim(&mut self.fft_ring, new, fft_n as usize);
        if self.fft_ring.len() < FFT_MIN_FILL {
            return FftStep::Wait;
        }
        let mut recompute: bool = false;
        if lf_enabled {
            recompute = self.lf.push_and_maybe_recompute(new, lf_fft_n, lf_every);
        } else if self.lf.is_stale() {
            self.lf.clear();
        }
        FftStep::Analyse { recompute_lf: recompute }
    }

    /// The channel ready for band levels, and what its integrator is told.
    pub open spec fn integrates(
        &self,
        before: &ChannelState,
        mode: Integration,
        n_bands: usize,
        now: u64,
        r: Option<IntegratorStep>,
    ) -> bool {
        &&& self.same_identity(before)
        &&& self.current_freq == before.current_freq
        &&& self.reconnect == before.reconnect
        &&& self.cwt_ring == before.cwt_ring
        &&& self.cqt_ring == before.cqt_ring
        &&& self.reass_ring == before.reass_ring
        &&& self.fft_ring == before.fft_ring
        &&& self.lf == before.lf
        &&& mode == Integration::Off ==> {
            &&& r is None
            &&& self.integrator == before.integrator
            &&& self.last_frac_ts == before.last_frac_ts
        }
        &&& mode != Integration::Off ==> {
            let keep = before.integrator is Some && before.integrator->0.n_bands == n_bands;
            &&& self.last_frac_ts == Some(now)
            &&& self.integrator == (if keep {
                before.integrator
            } else {
                integrator_for(mode, n_bands)
            })
            &&& r == Some(
                IntegratorStep {
                    fresh: !keep,
                    elapsed: if !keep {
                        None
                    } else {
                        match before.last_frac_ts {
                            Some(t) => if now >= t {
                                Some((now - t) as u64)
                            } else {
                                Some(0u64)
                            },
                            None => None,
                        }
                    },
                },
            )
        }
    }

    /// Prepare the integrator for band levels at `now`: it is made anew for a
    /// changed band count or a first use; with integration off nothing
    /// happens.
    pub fn integrator_step(&mut self, mode: Integration, n_bands: usize, now: u64) -> (r: Option<
        IntegratorStep,
    >)
        ensures
            final(self).integrates(old(self), mode, n_bands, now, r),
    {
        if mode == Integration::Off {
            return None;
        }
        let keep: bool = match self.integrator {
            Some(i) => i.n_bands == n_bands,
            None => false,
        };
        if !keep {
            self.integrator = Integrator::for_mode(mode, n_bands);
            self.last_frac_ts = None;
        }
        let elapsed: Option<u64> = match self.last_frac_ts {
            Some(t) => if now >= t {
                Some(now - t)
            } else {
                Some(0)
            },
            None => None,
        };
        self.last_frac_ts = Some(now);
        Some(IntegratorStep { fresh: !keep, elapsed })
    }
}

/// The cadence is a whole number of ticks from 1 to 4096: what is no number
/// and what is below one tick count as every tick, and from 4096 on there is
/// no more.
pub proof fn a_cadence_is_from_1_to_4096(hops: Double)
    ensures
        1 <= cadence(hops) <= 4096,
        hops.nan() ==> cadence(hops) == 1,
        hops.below(Double { bits: 0x3FF0_0000_0000_0000 }) ==> cadence(hops) == 1,
        (Double { bits: 0x40B0_0000_0000_0000 }).at_most(hops) ==> cadence(hops) == 4096,
{
    let one = Double { bits: 0x3FF0_0000_0000_0000 };
    if !hops.nan() && !hops.below(one) && hops.below(Double { bits: CADENCE_MAX }) {
        cadence_in_range(hops);
    }
}

/// The smoother is built anew exactly where its count of bins changes, and
/// only then forgets its last update; a new update is timed from the last one
/// of the same smoother, and from none where there was none.
pub proof fn a_smoother_is_kept_while_its_bins_stay(
    before: LfState,
    n_bins: usize,
    now: u64,
    pointed: LfState,
    rebuilt: bool,
    begun: LfState,
    fresh: bool,
    since: Option<u64>,
)
    requires
        pointed.smooths(&before, n_bins, rebuilt),
        begun.begins(&before, n_bins, now, fresh, since),
    ensures
        rebuilt <==> before.ema_bins is None || before.ema_bins->0 != n_bins,
        fresh == rebuilt,
        pointed.ema_bins == Some(n_bins),
        begun.ema_bins == Some(n_bins),
        !rebuilt ==> pointed.ema_last_ts == before.ema_last_ts,
        rebuilt ==> pointed.ema_last_ts is None && since is None,
        begun.ema_last_ts == Some(now),
        before.ema_last_ts is None ==> since is None,
        before.ema_last_ts matches Some(t) ==> (!fresh && now >= t ==> since == Some(
            (now - t) as u64,
        )) && (!fresh && now < t ==> since == Some(0u64)),
        begun.ring@ == before.ring@,
        begun.spec_cache == before.spec_cache,
        begun.ticks_since_recompute == before.ticks_since_recompute,
        pointed.ring@ == before.ring@,
        pointed.spec_cache == before.spec_cache,
        pointed.ticks_since_recompute == before.ticks_since_recompute,
{
}

/// A push keeps the newest samples and calls for a recompute only on a full
/// ring; until the hop has elapsed the counter moves by one, and a ring that
/// is not full yet leaves it alone. The cached spectrum stays until it is
/// replaced.
pub proof fn a_push_moves_the_hop_or_recomputes(
    before: LfState,
    new: Seq<Single>,
    len: u32,
    every: u32,
    after: LfState,
    recompute: bool,
)
    requires
        after.took_in(&before, new, len, every, recompute),
    ensures
        after.ring@.len() <= len,
        before.ring@.len() + new.len() <= len ==> after.ring@ == before.ring@ + new,
        before.ring@.len() + new.len() >= len ==> after.ring@.len() == len,
        recompute ==> after.ring@.len() == len,
        recompute ==> every <= 1 || before.ticks_since_recompute >= every,
        !recompute && after.ring@.len() == len ==> before.ticks_since_recompute < every
            && after.ticks_since_recompute == before.ticks_since_recompute + 1,
        after.ring@.len() < len ==> !recompute && after.ticks_since_recompute
            == before.ticks_since_recompute,
        after.spec_cache == before.spec_cache,
        after.ema_bins == before.ema_bins,
        after.ema_last_ts == before.ema_last_ts,
{
    if before.ring@.len() + new.len() <= len {
        assert(after.ring@ =~= before.ring@ + new);
    }
}

/// A capture is analysed from 256 samples on. Then the LF band takes it in
/// where it is enabled and holds nothing where it is not; before, the band is
/// left alone. Nothing but the FFT window and the LF band changes.
pub proof fn a_capture_is_analysed_from_256_samples(
    before: ChannelState,
    new: Seq<Single>,
    fft_n: u32,
    lf_enabled: bool,
    lf_fft_n: u32,
    lf_every: u32,
    after: ChannelState,
    r: FftStep,
)
    requires
        after.analysed(&before, new, fft_n, lf_enabled, lf_fft_n, lf_every, r),
    ensures
        after.fft_ring@ == newest(before.fft_ring@ + new, fft_n as nat),
        r is Wait <==> after.fft_ring@.len() < 256,
        r is Wait ==> after.lf == before.lf,
        r matches FftStep::Analyse { recompute_lf } ==> (recompute_lf ==> lf_enabled
            && after.lf.ring@.len() >= lf_fft_n),
        r is Analyse && lf_enabled ==> after.lf.ring@ == newest(
            before.lf.ring@ + new,
            lf_fft_n as nat,
        ),
        r is Analyse && !lf_enabled ==> after.lf.ring@.len() == 0 && after.lf.spec_cache is None,
        after.channel == before.channel,
        after.in_port == before.in_port,
        after.spl_offset == before.spl_offset,
        after.dbu_offset == before.dbu_offset,
        after.curve_loaded == before.curve_loaded,
        after.current_freq == before.current_freq,
        after.reconnect == before.reconnect,
        after.cwt_ring == before.cwt_ring,
        after.cqt_ring == before.cqt_ring,
        after.reass_ring == before.reass_ring,
        after.integrator == before.integrator,
        after.last_frac_ts == before.last_frac_ts,
{
}

/// An integrator is kept while its count of bands stays and is made anew else,
/// for the mode that is set; only a kept one is told the time since its last
/// levels. With integration off nothing changes.
pub proof fn an_integrator_is_kept_while_its_bands_stay(
    before: ChannelState,
    mode: Integration,
    n_bands: usize,
    now: u64,
    after: ChannelState,
    r: Option<IntegratorStep>,
)
    requires
        after.integrates(&before, mode, n_bands, now, r),
    ensures
        r is None <==> mode == Integration::Off,
        mode == Integration::Off ==> after.integrator == before.integrator && after.last_frac_ts
            == before.last_frac_ts,
        r matches Some(step) ==> {
            &&& after.last_frac_ts == Some(now)
            &&& after.integrator is Some && after.integrator->0.n_bands == n_bands
            &&& step.fresh <==> before.integrator is None || before.integrator->0.n_bands != n_bands
            &&& step.fresh ==> after.integrator->0.mode == mode && step.elapsed is None
            &&& !step.fresh ==> after.integrator == before.integrator
            &&& !step.fresh ==> (step.elapsed is None <==> before.last_frac_ts is None)
            &&& !step.fresh ==> (before.last_frac_ts matches Some(t) ==> (now >= t
                ==> step.elapsed == Some((now - t) as u64)) && (now < t ==> step.elapsed == Some(
                0u64,
            )))
        },
        after.channel == before.channel,
        after.in_port == before.in_port,
        after.spl_offset == before.spl_offset,
        after.dbu_offset == before.dbu_offset,
        after.curve_loaded == before.curve_loaded,
        after.current_freq == before.current_freq,
        after.reconnect == before.reconnect,
        after.cwt_ring == before.cwt_ring,
        after.cqt_ring == before.cqt_ring,
        after.reass_ring == before.reass_ring,
        after.fft_ring == before.fft_ring,
        after.lf == before.lf,
{
}

/// Each ring-buffered mode has a ring of its own, and what identifies a
/// channel is its index, its port and its calibration.
pub proof fn each_mode_has_its_own_ring(a: ChannelState, b: ChannelState)
    ensures
        a.ring_of(RingKind::Cwt) == a.cwt_ring@,
        a.ring_of(RingKind::Cqt) == a.cqt_ring@,
        a.ring_of(RingKind::Reassigned) == a.reass_ring@,
        a.same_identity(&b) ==> a.channel == b.channel && a.in_port == b.in_port && a.spl_offset
            == b.spl_offset && a.dbu_offset == b.dbu_offset && a.curve_loaded == b.curve_loaded,
        a.same_but_mode_rings(&b) ==> a.same_identity(&b) && a.current_freq == b.current_freq
            && a.reconnect == b.reconnect && a.fft_ring == b.fft_ring && a.lf == b.lf
            && a.integrator == b.integrator && a.last_frac_ts == b.last_frac_ts,
{
}

/// Everything but `off` integrates, in its own mode and over the bands given.
pub proof fn only_off_has_no_integrator(mode: Integration, n_bands: usize)
    ensures
        integrator_for(mode, n_bands) is None <==> mode == Integration::Off,
        integrator_for(mode, n_bands) matches Some(i) ==> i.mode == mode && i.n_bands == n_bands,
{
}

} // verus!
