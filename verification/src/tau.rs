//! Interface latency (τ): the gates that one reading passes, and the rule
//! that only two agreeing readings make a measurement.
use vstd::prelude::*;

use crate::double::{whole, Double};
use crate::json::{fields_read_back, finite_or_null, integer_view, Json, JsonV};
use crate::text::{dec, decimal, signed_dec, signed_decimal};

verus! {

/// The method tag of every stored entry.
pub const TAU_METHOD: &'static str = "farina_short_ess_v2";

/// The capture tail, 0.15 s (like the others below, a double's bit pattern).
pub const TAU_TAIL_S: u64 = 0x3FC3_3333_3333_3333;

/// The half-window, 0.05 s.
pub const TAU_MIN_HALF_WINDOW_S: u64 = 0x3FA9_9999_9999_999A;

/// The edge margin as a fraction of the half-window, 0.1.
pub const TAU_EDGE_MARGIN_FRAC: u64 = 0x3FB9_9999_9999_999A;

/// The pre-impulse SNR that a peak must reach, 24 dB.
pub const TAU_SNR_THRESHOLD_DB: u64 = 0x4038_0000_0000_0000;

/// The tail holds the whole window, twice the half-window, with room to spare.
pub proof fn the_tail_holds_the_window()
    ensures
        ({
            let half = Double { bits: TAU_MIN_HALF_WINDOW_S };
            let tail = Double { bits: TAU_TAIL_S };
            &&& half.below(tail)
            &&& half.twice().below(tail)
        }),
{
}

/// An instrument override: a finite number that is not negative replaces the
/// built-in value, anything else is ignored.
pub fn tau_override(parsed: Option<Double>, default: Double) -> (r: Double)
    ensures
        r == (match parsed {
            Some(x) => if x.finite() && x.rank() >= 0 {
                x
            } else {
                default
            },
            None => default,
        }),
{
    match parsed {
        Some(x) => if x.is_finite() && Double::new(0).le(x) {
            x
        } else {
            default
        },
        None => default,
    }
}

/// A peak whose SNR is below the threshold.
#[derive(Clone, Copy, Debug, PartialEq, Eq, Structural)]
pub struct LowSnrRefusal {
    pub snr_db: Double,
    pub threshold_db: Double,
}

impl LowSnrRefusal {
    /// The refusal, with both levels as printed to two decimals.
    pub fn message(&self, snr: &str, threshold: &str) -> (r: String)
        ensures
            r@ == "\u{3c4} peak pre-impulse SNR "@ + snr@ + " dB is below the "@ + threshold@
                + " dB threshold; no value reported"@,
    {
        "\u{3c4} peak pre-impulse SNR ".to_owned().concat(snr).concat(
            " dB is below the ",
        ).concat(threshold).concat(" dB threshold; no value reported")
    }
}

/// The SNR that an edge refusal observed.
#[derive(Clone, Copy, Debug, PartialEq, Eq, Structural)]
pub struct EdgeSnr {
    pub snr_db: Double,
    pub threshold_db: Double,
    pub below_threshold: bool,
}

/// A peak within the edge margin of the window, where "outside the window"
/// and "at this position" look the same.
#[derive(Clone, Copy, Debug, PartialEq, Eq, Structural)]
pub struct EdgeRefusal {
    pub peak_idx: usize,
    pub window_len: usize,
    pub margin: usize,
    pub snr: Option<EdgeSnr>,
}

impl EdgeRefusal {
    /// The peak and the window are of a size that an `i64` holds.
    pub open spec fn fits(self) -> bool {
        self.peak_idx <= 0x7FFF_FFFF_FFFF_FFFF && self.window_len <= 0x7FFF_FFFF_FFFF_FFFF
    }

    pub open spec fn peak_offset(self) -> int {
        self.peak_idx - self.window_len as int / 2
    }

    pub open spec fn first_offset(self) -> int {
        -(self.window_len as int / 2)
    }

    pub open spec fn last_offset(self) -> int {
        self.window_len - 1 - self.window_len as int / 2
    }

    pub fn peak_offset_samples(&self) -> (r: i64)
        requires
            self.fits(),
        ensures
            r == self.peak_offset(),
    {
        self.peak_idx as i64 - (self.window_len / 2) as i64
    }

    pub fn window_first_offset_samples(&self) -> (r: i64)
        requires
            self.fits(),
        ensures
            r == self.first_offset(),
    {
        -((self.window_len / 2) as i64)
    }

    pub fn window_last_offset_samples(&self) -> (r: i64)
        requires
            self.fits(),
        ensures
            r == self.last_offset(),
    {
        self.window_len as i64 - 1 - (self.window_len / 2) as i64
    }

    /// The refusal: what was observed, and that no value is reported.
    pub fn message(&self) -> (r: String)
        requires
            self.fits(),
        ensures
            r@ == "\u{3c4} peak at offset "@ + signed_dec(self.peak_offset())
                + " samples is within the "@ + dec(self.margin as nat)
                + "-sample edge margin of a "@ + (if self.first_offset() == 0 {
                dec(0)
            } else {
                signed_dec(self.first_offset())
            }) + " to "@ + signed_dec(self.last_offset())
                + " sample window; no value reported"@,
    {
        let first: i64 = self.window_first_offset_samples();
        let first_text = if first == 0 {
            decimal(0)
        } else {
            signed_decimal(first)
        };
        "\u{3c4} peak at offset ".to_owned().concat(
            signed_decimal(self.peak_offset_samples()).as_str(),
        ).concat(" samples is within the ").concat(decimal(self.margin as u64).as_str()).concat(
            "-sample edge margin of a ",
        ).concat(first_text.as_str()).concat(" to ").concat(
            signed_decimal(self.window_last_offset_samples()).as_str(),
        ).concat(" sample window; no value reported")
    }
}

/// Whether a level is below a threshold.
pub fn snr_below_threshold(snr_db: Double, threshold_db: Double) -> (r: bool)
    ensures
        r == snr_db.below(threshold_db),
{
    snr_db.lt(threshold_db)
}

/// Refuse a peak whose SNR is strictly below the threshold.
pub fn check_peak_snr(snr_db: Double, threshold_db: Double) -> (r: Result<(), LowSnrRefusal>)
    ensures
        r == (if snr_db.below(threshold_db) {
            Err::<(), LowSnrRefusal>(LowSnrRefusal { snr_db, threshold_db })
        } else {
            Ok::<(), LowSnrRefusal>(())
        }),
{
    if snr_below_threshold(snr_db, threshold_db) {
        return Err(LowSnrRefusal { snr_db, threshold_db });
    }
    Ok(())
}

/// The edge margin of a window, in samples.
pub open spec fn edge_margin(window_len: usize, margin_frac: Double) -> nat {
    let half = whole((window_len as int / 2) as nat);
    let margin = margin_frac.cast(half, margin_frac.times_rounded(half));
    if margin > usize::MAX {
        usize::MAX as nat
    } else {
        margin
    }
}

/// Whether a peak lies clear of both edges by more than the margin.
pub open spec fn clear_of_edges(peak_idx: usize, window_len: usize, margin: nat) -> bool {
    peak_idx > margin && peak_idx + margin < window_len - 1
}

/// Refuse a peak within the margin of either edge of the window.
pub fn check_peak_within_window(peak_idx: usize, window_len: usize, margin_frac: Double) -> (r:
    Result<(), EdgeRefusal>)
    ensures
        r == (if clear_of_edges(peak_idx, window_len, edge_margin(window_len, margin_frac)) {
            Ok::<(), EdgeRefusal>(())
        } else {
            Err::<(), EdgeRefusal>(
                EdgeRefusal {
                    peak_idx,
                    window_len,
                    margin: edge_margin(window_len, margin_frac) as usize,
                    snr: None,
                },
            )
        }),
{
    let half: u64 = (window_len / 2) as u64;
    let rounded: u64 = margin_frac.mul_round(half);
    let margin: usize = if rounded > usize::MAX as u64 {
        usize::MAX
    } else {
        rounded as usize
    };
    let from_end: usize = if window_len >= 1 && peak_idx <= window_len - 1 {
        window_len - 1 - peak_idx
    } else {
        0
    };
    if peak_idx <= margin || from_end <= margin {
        return Err(EdgeRefusal { peak_idx, window_len, margin, snr: None });
    }
    Ok(())
}

/// Both edges are treated alike: a peak is refused exactly where the nearer
/// edge is within the margin, so that its mirror image shares its fate, and a
/// peak on an edge is refused whatever the margin.
pub proof fn both_edges_are_treated_alike(peak_idx: usize, window_len: usize, margin_frac: Double)
    requires
        peak_idx < window_len,
    ensures
        ({
            let margin = edge_margin(window_len, margin_frac);
            let mirrored = (window_len - 1 - peak_idx) as usize;
            let nearer = if peak_idx <= mirrored {
                peak_idx
            } else {
                mirrored
            };
            &&& clear_of_edges(peak_idx, window_len, margin) <==> clear_of_edges(
                mirrored,
                window_len,
                margin,
            )
            &&& !clear_of_edges(peak_idx, window_len, margin) <==> nearer <= margin
            &&& !clear_of_edges(0, window_len, margin)
            &&& !clear_of_edges((window_len - 1) as usize, window_len, margin)
        }),
{
}

/// The half-window at a sample rate, in samples: the length times the rate,
/// rounded up.
pub open spec fn half_samples(half_window_s: Double, sr: u32) -> nat {
    let half = half_window_s.cast(sr as nat, half_window_s.times_ceiled(sr as nat));
    if half > usize::MAX {
        usize::MAX as nat
    } else {
        half
    }
}

/// The half-window at a sample rate, in samples.
pub fn half_window(half_window_s: Double, sr: u32) -> (r: usize)
    ensures
        r == half_samples(half_window_s, sr),
{
    let half: u64 = half_window_s.mul_ceil(sr as u64);
    if half > usize::MAX as u64 {
        usize::MAX
    } else {
        half as usize
    }
}

/// The refusal of a capture whose tail cannot hold the window.
#[derive(Clone, Copy, Debug, PartialEq, Eq, Structural)]
pub struct TailTooShort {
    pub half_window_s: Double,
    pub tail_s: Double,
    /// Twice the half-window.
    pub needed_s: Double,
}

impl TailTooShort {
    /// The refusal. `half_window` and `tail` are the lengths as plain
    /// numbers, `needed` is the needed one to four decimals.
    pub fn message(&self, half_window: &str, needed: &str, tail: &str) -> (r: String)
        ensures
            r@ == "\u{3c4} half-window "@ + half_window@ + " s needs a "@ + needed@
                + " s gate but the capture tail is only "@ + tail@
                + " s \u{2014} the window would run off the end of the capture"@,
    {
        "\u{3c4} half-window ".to_owned().concat(half_window).concat(" s needs a ").concat(
            needed,
        ).concat(" s gate but the capture tail is only ").concat(tail).concat(
            " s \u{2014} the window would run off the end of the capture",
        )
    }
}

/// The window of a leg, in samples, or the refusal of a tail that is shorter
/// than twice the half-window.
pub fn leg_window(half_window_s: Double, sr: u32, tail_s: Double) -> (r: Result<
    usize,
    TailTooShort,
>)
    requires
        !tail_s.below(half_window_s.twice()) ==> 2 * half_samples(half_window_s, sr) <= usize::MAX,
    ensures
        match r {
            Ok(n) => !tail_s.below(half_window_s.twice()) && n == 2 * half_samples(
                half_window_s,
                sr,
            ),
            Err(e) => tail_s.below(half_window_s.twice()) && e == (TailTooShort {
                half_window_s,
                tail_s,
                needed_s: half_window_s.twice(),
            }),
        },
{
    let needed_s: Double = half_window_s.doubled();
    if tail_s.lt(needed_s) {
        return Err(TailTooShort { half_window_s, tail_s, needed_s });
    }
    Ok(2 * half_window(half_window_s, sr))
}

/// Why a leg yields no reading.
#[derive(Clone, Copy, Debug, PartialEq, Eq, Structural)]
pub enum LegRefusal {
    /// The window would run off the end of the capture.
    Tail(TailTooShort),
    /// The sweep left no impulse response.
    EmptyIr,
    Edge(EdgeRefusal),
    LowSnr(LowSnrRefusal),
}

/// What the deconvolution of a leg found.
#[derive(Clone, Copy, Debug, PartialEq, Eq, Structural)]
pub struct LegPeak {
    pub peak_idx: usize,
    pub snr_db: Double,
}

/// The threshold of a leg: the one derived from its own stimulus, or the
/// built-in one.
pub open spec fn leg_threshold(derived: Option<Double>, constant: Double) -> Double {
    match derived {
        Some(t) => t,
        None => constant,
    }
}

/// The verdict on a leg, gate by gate: the tail, the presence of a response,
/// the edge, then the SNR. A leg that crossed an xrun skips the SNR gate and
/// its edge refusal carries no SNR.
pub open spec fn leg_verdict(
    half_window_s: Double,
    sr: u32,
    tail_s: Double,
    peak: Option<LegPeak>,
    margin_frac: Double,
    threshold: Double,
    xruns: u32,
) -> Result<int, LegRefusal> {
    let half = half_samples(half_window_s, sr);
    let window_len = (2 * half) as usize;
    let margin = edge_margin(window_len, margin_frac);
    let needed_s = half_window_s.twice();
    if tail_s.below(needed_s) {
        Err(LegRefusal::Tail(TailTooShort { half_window_s, tail_s, needed_s }))
    } else {
        match peak {
            None => Err(LegRefusal::EmptyIr),
            Some(p) => if !clear_of_edges(p.peak_idx, window_len, margin) {
                Err(
                    LegRefusal::Edge(
                        EdgeRefusal {
                            peak_idx: p.peak_idx,
                            window_len,
                            margin: margin as usize,
                            snr: if xruns == 0 {
                                Some(
                                    EdgeSnr {
                                        snr_db: p.snr_db,
                                        threshold_db: threshold,
                                        below_threshold: p.snr_db.below(threshold),
                                    },
                                )
                            } else {
                                None
                            },
                        },
                    ),
                )
            } else if xruns == 0 && p.snr_db.below(threshold) {
                Err(
                    LegRefusal::LowSnr(
                        LowSnrRefusal { snr_db: p.snr_db, threshold_db: threshold },
                    ),
                )
            } else {
                Ok(p.peak_idx - half)
            },
        }
    }
}

/// Judge one leg of a sweep at `sr`. On success the peak's offset from the
/// window centre, in samples. `peak` is nothing when the response is empty;
/// `derived` is the threshold that the leg's own stimulus gives, if it has
/// one.
pub fn analyse_tau_leg(
    half_window_s: Double,
    sr: u32,
    tail_s: Double,
    peak: Option<LegPeak>,
    margin_frac: Double,
    derived: Option<Double>,
    constant: Double,
    xruns: u32,
) -> (r: Result<i64, LegRefusal>)
    requires
        !tail_s.below(half_window_s.twice()) ==> 2 * half_samples(half_window_s, sr) <= usize::MAX,
        peak matches Some(p) ==> p.peak_idx <= 0x7FFF_FFFF_FFFF_FFFF,
    ensures
        match r {
            Ok(offset) => leg_verdict(
                half_window_s,
                sr,
                tail_s,
                peak,
                margin_frac,
                leg_threshold(derived, constant),
                xruns,
            ) == Ok::<int, LegRefusal>(offset as int),
            Err(e) => leg_verdict(
                half_window_s,
                sr,
                tail_s,
                peak,
                margin_frac,
                leg_threshold(derived, constant),
                xruns,
            ) == Err::<int, LegRefusal>(e),
        },
{
    let window_len: usize = match leg_window(half_window_s, sr, tail_s) {
        Ok(n) => n,
        Err(e) => return Err(LegRefusal::Tail(e)),
    };
    let p: LegPeak = match peak {
        None => return Err(LegRefusal::EmptyIr),
        Some(p) => p,
    };
    let threshold_db: Double = match derived {
        Some(t) => t,
        None => constant,
    };
    let snr: Option<EdgeSnr> = if xruns == 0 {
        Some(
            EdgeSnr {
                snr_db: p.snr_db,
                threshold_db,
                below_threshold: snr_below_threshold(p.snr_db, threshold_db),
            },
        )
    } else {
        None
    };
    match check_peak_within_window(p.peak_idx, window_len, margin_frac) {
        Ok(_) => {},
        Err(mut edge) => {
            edge.snr = snr;
            return Err(LegRefusal::Edge(edge));
        },
    }
    if xruns == 0 {
        match check_peak_snr(p.snr_db, threshold_db) {
            Ok(_) => {},
            Err(e) => return Err(LegRefusal::LowSnr(e)),
        }
    }
    Ok(p.peak_idx as i64 - (window_len / 2) as i64)
}

/// A peak that fails both gates is refused for the edge, never for its SNR;
/// and a leg that crossed an xrun is never refused for its SNR.
pub proof fn the_edge_comes_before_the_snr(
    half_window_s: Double,
    sr: u32,
    tail_s: Double,
    p: LegPeak,
    margin_frac: Double,
    threshold: Double,
    xruns: u32,
)
    requires
        !tail_s.below(half_window_s.twice()),
    ensures
        ({
            let window_len = (2 * half_samples(half_window_s, sr)) as usize;
            let verdict = leg_verdict(
                half_window_s,
                sr,
                tail_s,
                Some(p),
                margin_frac,
                threshold,
                xruns,
            );
            &&& !clear_of_edges(p.peak_idx, window_len, edge_margin(window_len, margin_frac)) ==> (
            verdict matches Err(LegRefusal::Edge(e)) && (e.snr is Some <==> xruns == 0))
            &&& xruns > 0 ==> !(verdict matches Err(LegRefusal::LowSnr(_)))
        }),
{
}

/// What a latency was measured under.
#[derive(Debug)]
pub struct TauConditions {
    pub device: u32,
    pub backend: String,
    pub sample_rate: u32,
    pub period_size: Option<u32>,
    pub output_port: String,
    pub input_port: String,
}

/// What conditions hold.
#[verifier::ext_equal]
pub struct TauConditionsV {
    pub device: u32,
    pub backend: Seq<char>,
    pub sample_rate: u32,
    pub period_size: Option<u32>,
    pub output_port: Seq<char>,
    pub input_port: Seq<char>,
}

impl TauConditions {
    pub open spec fn view(&self) -> TauConditionsV {
        TauConditionsV {
            device: self.device,
            backend: self.backend@,
            sample_rate: self.sample_rate,
            period_size: self.period_size,
            output_port: self.output_port@,
            input_port: self.input_port@,
        }
    }

    pub fn copy(&self) -> (r: TauConditions)
        ensures
            r@ == self@,
    {
        TauConditions {
            device: self.device,
            backend: self.backend.clone(),
            sample_rate: self.sample_rate,
            period_size: self.period_size,
            output_port: self.output_port.clone(),
            input_port: self.input_port.clone(),
        }
    }
}

/// How two readings compare.
#[derive(Debug)]
pub enum TauComparison {
    /// They agree to the whole sample; the mean of the two.
    Agree { mean_s: Double },
    /// They do not; `periods` when the difference is a multiple of the period.
    Disagree { delta_samples: i64, periods: Option<i64>, message: String },
}

/// What one reading of a lifecycle gave.
#[derive(Debug)]
pub struct TauReading {
    pub conditions: TauConditions,
    pub tau_s: Double,
    pub snr_db: Double,
    /// Xruns crossed while this reading was captured.
    pub xruns: u32,
}

/// Why a lifecycle gave no reading.
#[derive(Debug)]
pub enum LifecycleFault {
    LowSnr { snr_db: Double },
    Other { message: String },
}

/// The outcome of two lifecycles.
#[derive(Debug)]
pub enum TauAttempt {
    Compared {
        conditions: TauConditions,
        reading1_s: Double,
        reading2_s: Double,
        reading1_xruns: u32,
        reading2_xruns: u32,
        comparison: TauComparison,
        /// The worse of the two SNRs.
        pre_impulse_snr_db: Double,
    },
    /// A lifecycle's peak was below the threshold; conditions only when it was
    /// the second one.
    LowSnr { conditions: Option<TauConditions>, pre_impulse_snr_db: Double },
    /// A lifecycle failed; conditions only when it was the second one.
    Error { conditions: Option<TauConditions>, message: String },
}

/// The error of a failed lifecycle.
pub open spec fn reading_failed(n: nat, e: Seq<char>) -> Seq<char> {
    "\u{3c4} measurement failed (reading "@ + dec(n) + " of 2): "@ + e
}

fn reading_failed_text(n: u64, e: &str) -> (r: String)
    ensures
        r@ == reading_failed(n as nat, e@),
{
    "\u{3c4} measurement failed (reading ".to_owned().concat(decimal(n).as_str()).concat(
        " of 2): ",
    ).concat(e)
}

/// The first lifecycle: its reading is kept for the second, or the attempt
/// ends without running the second.
pub fn first_reading(r: Result<TauReading, LifecycleFault>) -> (next: Result<
    TauReading,
    TauAttempt,
>)
    ensures
        match (r, next) {
            (Ok(a), Ok(b)) => a == b,
            (Err(LifecycleFault::LowSnr { snr_db }), Err(t)) => t == (TauAttempt::LowSnr {
                conditions: None,
                pre_impulse_snr_db: snr_db,
            }),
            (Err(LifecycleFault::Other { message }), Err(t)) => t matches TauAttempt::Error {
                conditions: None,
                message: m,
            } && m@ == reading_failed(1, message@),
            _ => false,
        },
{
    match r {
        Ok(reading) => Ok(reading),
        Err(LifecycleFault::LowSnr { snr_db }) => Err(
            TauAttempt::LowSnr { conditions: None, pre_impulse_snr_db: snr_db },
        ),
        Err(LifecycleFault::Other { message }) => Err(
            TauAttempt::Error {
                conditions: None,
                message: reading_failed_text(1, message.as_str()),
            },
        ),
    }
}

/// The attempt of two readings: both as they were taken, under the conditions
/// of the second, with the worse of the two SNRs.
pub open spec fn compared(
    first: TauReading,
    second: TauReading,
    comparison: TauComparison,
) -> TauAttempt {
    TauAttempt::Compared {
        conditions: second.conditions,
        reading1_s: first.tau_s,
        reading2_s: second.tau_s,
        reading1_xruns: first.xruns,
        reading2_xruns: second.xruns,
        comparison,
        pre_impulse_snr_db: first.snr_db.lesser(second.snr_db),
    }
}

/// The second lifecycle: the two readings and how they compare, or its
/// failure under the first one's conditions.
pub fn second_reading(
    first: TauReading,
    r: Result<(TauReading, TauComparison), LifecycleFault>,
) -> (t: TauAttempt)
    ensures
        match r {
            Ok((second, comparison)) => t == compared(first, second, comparison),
            Err(LifecycleFault::LowSnr { snr_db }) => t == (TauAttempt::LowSnr {
                conditions: Some(first.conditions),
                pre_impulse_snr_db: snr_db,
            }),
            Err(LifecycleFault::Other { message }) => t matches TauAttempt::Error {
                conditions: Some(c),
                message: m,
            } && c == first.conditions && m@ == reading_failed(2, message@),
        },
{
    match r {
        Ok((second, comparison)) => TauAttempt::Compared {
            conditions: second.conditions,
            reading1_s: first.tau_s,
            reading2_s: second.tau_s,
            reading1_xruns: first.xruns,
            reading2_xruns: second.xruns,
            comparison,
            pre_impulse_snr_db: first.snr_db.min_with(second.snr_db),
        },
        Err(LifecycleFault::LowSnr { snr_db }) => TauAttempt::LowSnr {
            conditions: Some(first.conditions),
            pre_impulse_snr_db: snr_db,
        },
        Err(LifecycleFault::Other { message }) => TauAttempt::Error {
            conditions: Some(first.conditions),
            message: reading_failed_text(2, message.as_str()),
        },
    }
}

/// What a run reports about its latency attempt. A latency exists only on the
/// variant where two lifecycles agreed.
#[derive(Debug)]
pub enum TauOutcome {
    NotMeasuredLowSnr {
        conditions: Option<TauConditions>,
        pre_impulse_snr_db: Double,
        snr_threshold_db: Double,
    },
    Measured {
        conditions: TauConditions,
        tau_s: Double,
        agreement_count: u32,
        reading1_s: Double,
        reading2_s: Double,
        pre_impulse_snr_db: Double,
        snr_threshold_db: Double,
        reading1_xruns: u32,
        reading2_xruns: u32,
    },
    RefusedXrun {
        conditions: TauConditions,
        reading1_s: Double,
        reading2_s: Double,
        reading1_xruns: u32,
        reading2_xruns: u32,
    },
    Disagree {
        conditions: TauConditions,
        reading1_s: Double,
        reading2_s: Double,
        pre_impulse_snr_db: Double,
        snr_threshold_db: Double,
        reading1_xruns: u32,
        reading2_xruns: u32,
        delta_samples: i64,
        periods: Option<i64>,
        message: String,
    },
    Error { conditions: Option<TauConditions>, message: String },
}

/// A latency to store.
#[derive(Debug)]
pub struct TauEntry {
    pub conditions: TauConditions,
    pub tau_s: Double,
    pub measured_at: String,
    pub method: String,
    pub agreement_count: u32,
}

/// The outcome of an attempt: an xrun on either reading refuses before the
/// comparison is looked at.
pub open spec fn outcome_of(a: TauAttempt, threshold: Double) -> TauOutcome {
    match a {
        TauAttempt::Error { conditions, message } => TauOutcome::Error { conditions, message },
        TauAttempt::LowSnr {
            conditions,
            pre_impulse_snr_db,
        } => TauOutcome::NotMeasuredLowSnr {
            conditions,
            pre_impulse_snr_db,
            snr_threshold_db: threshold,
        },
        TauAttempt::Compared {
            conditions,
            reading1_s,
            reading2_s,
            reading1_xruns,
            reading2_xruns,
            comparison,
            pre_impulse_snr_db,
        } => if reading1_xruns > 0 || reading2_xruns > 0 {
            TauOutcome::RefusedXrun {
                conditions,
                reading1_s,
                reading2_s,
                reading1_xruns,
                reading2_xruns,
            }
        } else {
            match comparison {
                TauComparison::Agree { mean_s } => TauOutcome::Measured {
                    conditions,
                    tau_s: mean_s,
                    agreement_count: 2,
                    reading1_s,
                    reading2_s,
                    pre_impulse_snr_db,
                    snr_threshold_db: threshold,
                    reading1_xruns,
                    reading2_xruns,
                },
                TauComparison::Disagree {
                    delta_samples,
                    periods,
                    message,
                } => TauOutcome::Disagree {
                    conditions,
                    reading1_s,
                    reading2_s,
                    pre_impulse_snr_db,
                    snr_threshold_db: threshold,
                    reading1_xruns,
                    reading2_xruns,
                    delta_samples,
                    periods,
                    message,
                },
            }
        },
    }
}

/// Turn an attempt into what the run reports.
pub fn tau_result(attempt: TauAttempt, snr_threshold_db: Double) -> (r: TauOutcome)
    ensures
        r == outcome_of(attempt, snr_threshold_db),
{
    match attempt {
        TauAttempt::Error { conditions, message } => TauOutcome::Error { conditions, message },
        TauAttempt::LowSnr {
            conditions,
            pre_impulse_snr_db,
        } => TauOutcome::NotMeasuredLowSnr { conditions, pre_impulse_snr_db, snr_threshold_db },
        TauAttempt::Compared {
            conditions,
            reading1_s,
            reading2_s,
            reading1_xruns,
            reading2_xruns,
            comparison,
            pre_impulse_snr_db,
        } => {
            if reading1_xruns > 0 || reading2_xruns > 0 {
                return TauOutcome::RefusedXrun {
                    conditions,
                    reading1_s,
                    reading2_s,
                    reading1_xruns,
                    reading2_xruns,
                };
            }
            match comparison {
                TauComparison::Agree { mean_s } => TauOutcome::Measured {
                    conditions,
                    tau_s: mean_s,
                    agreement_count: 2,
                    reading1_s,
                    reading2_s,
                    pre_impulse_snr_db,
                    snr_threshold_db,
                    reading1_xruns,
                    reading2_xruns,
                },
                TauComparison::Disagree {
                    delta_samples,
                    periods,
                    message,
                } => TauOutcome::Disagree {
                    conditions,
                    reading1_s,
                    reading2_s,
                    pre_impulse_snr_db,
                    snr_threshold_db,
                    reading1_xruns,
                    reading2_xruns,
                    delta_samples,
                    periods,
                    message,
                },
            }
        },
    }
}

impl TauOutcome {
    /// The `tau_state` on the wire.
    pub open spec fn state_text(self) -> Seq<char> {
        match self {
            TauOutcome::NotMeasuredLowSnr { .. } => "not_measured_low_snr"@,
            TauOutcome::Measured { .. } => "measured"@,
            TauOutcome::RefusedXrun { .. } => "refused_xrun"@,
            TauOutcome::Disagree { periods, .. } => if periods is Some {
                "disagree_period_shift"@
            } else {
                "disagree_other"@
            },
            TauOutcome::Error { .. } => "error"@,
        }
    }

    pub fn state(&self) -> (r: &'static str)
        ensures
            r@ == self.state_text(),
    {
        match self {
            TauOutcome::NotMeasuredLowSnr { .. } => "not_measured_low_snr",
            TauOutcome::Measured { .. } => "measured",
            TauOutcome::RefusedXrun { .. } => "refused_xrun",
            TauOutcome::Disagree { periods, .. } => if periods.is_some() {
                "disagree_period_shift"
            } else {
                "disagree_other"
            },
            TauOutcome::Error { .. } => "error",
        }
    }

    /// The conditions of the attempt, when any were captured.
    pub open spec fn ran_under(self) -> Option<TauConditions> {
        match self {
            TauOutcome::Measured { conditions, .. } => Some(conditions),
            TauOutcome::RefusedXrun { conditions, .. } => Some(conditions),
            TauOutcome::Disagree { conditions, .. } => Some(conditions),
            TauOutcome::NotMeasuredLowSnr { conditions, .. } => conditions,
            TauOutcome::Error { conditions, .. } => conditions,
        }
    }

    pub fn conditions(&self) -> (r: Option<&TauConditions>)
        ensures
            match r {
                Some(c) => self.ran_under() == Some(*c),
                None => self.ran_under() is None,
            },
    {
        match self {
            TauOutcome::Measured { conditions, .. } => Some(conditions),
            TauOutcome::RefusedXrun { conditions, .. } => Some(conditions),
            TauOutcome::Disagree { conditions, .. } => Some(conditions),
            TauOutcome::NotMeasuredLowSnr { conditions, .. } => conditions.as_ref(),
            TauOutcome::Error { conditions, .. } => conditions.as_ref(),
        }
    }

    /// What of the outcome is worth storing: the conditions, the latency and
    /// the count of readings that agreed.
    pub open spec fn storable(self) -> Option<(TauConditionsV, Double, u32)> {
        match self {
            TauOutcome::Measured { conditions, tau_s, agreement_count, .. } => Some(
                (conditions@, tau_s, agreement_count),
            ),
            _ => None,
        }
    }

    /// The entry to store, or nothing when nothing storable was measured.
    pub fn stored_entry(&self, method: &str, measured_at: &str) -> (r: Option<TauEntry>)
        ensures
            match r {
                Some(e) => {
                    &&& self.storable() == Some((e.conditions@, e.tau_s, e.agreement_count))
                    &&& e.measured_at@ == measured_at@
                    &&& e.method@ == method@
                },
                None => self.storable() is None,
            },
    {
        match self {
            TauOutcome::Measured { conditions, tau_s, agreement_count, .. } => Some(
                TauEntry {
                    conditions: conditions.copy(),
                    tau_s: *tau_s,
                    measured_at: measured_at.to_owned(),
                    method: method.to_owned(),
                    agreement_count: *agreement_count,
                },
            ),
            _ => None,
        }
    }

    /// The fields that every outcome has.
    pub open spec fn head(self, frame: JsonV) -> JsonV {
        let f = frame.with("tau_state"@, JsonV::Str(self.state_text()));
        match self {
            TauOutcome::Measured { tau_s, agreement_count, .. } => f.with(
                "tau_s"@,
                finite_or_null(tau_s),
            ).with("tau_agreement_count"@, JsonV::Uint(agreement_count as u64)),
            _ => f.with("tau_s"@, JsonV::Null).with("tau_agreement_count"@, JsonV::Uint(0)),
        }
    }

    /// The SNR fields, on every state that reached a deconvolution.
    pub open spec fn snr(self, f: JsonV) -> JsonV {
        match self {
            TauOutcome::Measured { pre_impulse_snr_db, snr_threshold_db, .. } => snr_fields(
                f,
                pre_impulse_snr_db,
                snr_threshold_db,
            ),
            TauOutcome::NotMeasuredLowSnr {
                pre_impulse_snr_db,
                snr_threshold_db,
                ..
            } => snr_fields(f, pre_impulse_snr_db, snr_threshold_db),
            TauOutcome::Disagree { pre_impulse_snr_db, snr_threshold_db, .. } => snr_fields(
                f,
                pre_impulse_snr_db,
                snr_threshold_db,
            ),
            _ => f,
        }
    }

    /// The fields that this outcome writes into a `cal_done` frame.
    pub open spec fn frame_of(self, frame: JsonV) -> JsonV {
        let f = self.snr(self.head(frame));
        match self {
            TauOutcome::NotMeasuredLowSnr { .. } => f,
            TauOutcome::Measured {
                reading1_s,
                reading2_s,
                reading1_xruns,
                reading2_xruns,
                ..
            } => reading_fields(f, reading1_s, reading2_s, reading1_xruns, reading2_xruns),
            TauOutcome::RefusedXrun {
                reading1_s,
                reading2_s,
                reading1_xruns,
                reading2_xruns,
                ..
            } => reading_fields(f, reading1_s, reading2_s, reading1_xruns, reading2_xruns),
            TauOutcome::Disagree {
                reading1_s,
                reading2_s,
                reading1_xruns,
                reading2_xruns,
                delta_samples,
                periods,
                message,
                ..
            } => {
                let g = reading_fields(
                    f,
                    reading1_s,
                    reading2_s,
                    reading1_xruns,
                    reading2_xruns,
                ).with("tau_delta_samples"@, integer_view(delta_samples));
                let h = match periods {
                    Some(p) => g.with("tau_periods"@, integer_view(p)),
                    None => g,
                };
                h.with("tau_error"@, JsonV::Str(message@))
            },
            TauOutcome::Error { message, .. } => f.with("tau_error"@, JsonV::Str(message@)),
        }
    }

    /// Write this outcome's `tau_*` fields into a `cal_done` frame. The state,
    /// the latency and the agreement count are always present; every other
    /// field only on the states that have it.
    pub fn write_frame(&self, frame: Json) -> (r: Json)
        ensures
            r@ == self.frame_of(frame@),
    {
        let f = frame.with("tau_state", Json::string(self.state()));
        let f = match self {
            TauOutcome::Measured { tau_s, agreement_count, .. } => f.with(
                "tau_s",
                Json::float(*tau_s),
            ).with("tau_agreement_count", Json::Uint(*agreement_count as u64)),
            _ => f.with("tau_s", Json::Null).with("tau_agreement_count", Json::Uint(0)),
        };
        match self {
            TauOutcome::NotMeasuredLowSnr {
                pre_impulse_snr_db,
                snr_threshold_db,
                ..
            } => add_snr(f, *pre_impulse_snr_db, *snr_threshold_db),
            TauOutcome::Measured {
                pre_impulse_snr_db,
                snr_threshold_db,
                reading1_s,
                reading2_s,
                reading1_xruns,
                reading2_xruns,
                ..
            } => add_readings(
                add_snr(f, *pre_impulse_snr_db, *snr_threshold_db),
                *reading1_s,
                *reading2_s,
                *reading1_xruns,
                *reading2_xruns,
            ),
            TauOutcome::RefusedXrun {
                reading1_s,
                reading2_s,
                reading1_xruns,
                reading2_xruns,
                ..
            } => add_readings(f, *reading1_s, *reading2_s, *reading1_xruns, *reading2_xruns),
            TauOutcome::Disagree {
                pre_impulse_snr_db,
                snr_threshold_db,
                reading1_s,
                reading2_s,
                reading1_xruns,
                reading2_xruns,
                delta_samples,
                periods,
                message,
                ..
            } => {
                let g = add_readings(
                    add_snr(f, *pre_impulse_snr_db, *snr_threshold_db),
                    *reading1_s,
                    *reading2_s,
                    *reading1_xruns,
                    *reading2_xruns,
                ).with("tau_delta_samples", Json::integer(*delta_samples));
                let h = match periods {
                    Some(p) => g.with("tau_periods", Json::integer(*p)),
                    None => g,
                };
                h.with("tau_error", Json::string(message.as_str()))
            },
            TauOutcome::Error { message, .. } => f.with(
                "tau_error",
                Json::string(message.as_str()),
            ),
        }
    }
}

/// The SNR fields of a frame.
pub open spec fn snr_fields(f: JsonV, snr: Double, threshold: Double) -> JsonV {
    f.with("tau_pre_impulse_snr_db"@, finite_or_null(snr)).with(
        "tau_snr_threshold_db"@,
        finite_or_null(threshold),
    )
}

fn add_snr(f: Json, snr: Double, threshold: Double) -> (r: Json)
    ensures
        r@ == snr_fields(f@, snr, threshold),
{
    f.with("tau_pre_impulse_snr_db", Json::float(snr)).with(
        "tau_snr_threshold_db",
        Json::float(threshold),
    )
}

/// The fields of two readings.
pub open spec fn reading_fields(f: JsonV, r1: Double, r2: Double, x1: u32, x2: u32) -> JsonV {
    f.with("tau_reading1_s"@, finite_or_null(r1)).with(
        "tau_reading2_s"@,
        finite_or_null(r2),
    ).with("tau_reading1_xruns"@, JsonV::Uint(x1 as u64)).with(
        "tau_reading2_xruns"@,
        JsonV::Uint(x2 as u64),
    )
}

fn add_readings(f: Json, r1: Double, r2: Double, x1: u32, x2: u32) -> (r: Json)
    ensures
        r@ == reading_fields(f@, r1, r2, x1, x2),
{
    f.with("tau_reading1_s", Json::float(r1)).with("tau_reading2_s", Json::float(r2)).with(
        "tau_reading1_xruns",
        Json::Uint(x1 as u64),
    ).with("tau_reading2_xruns", Json::Uint(x2 as u64))
}

/// Only two clean, agreeing readings are ever measured: an xrun on either one
/// refuses whatever the comparison said, and a disagreement is never stored.
pub proof fn only_corroborated_readings_are_measured(a: TauAttempt, threshold: Double)
    ensures
        outcome_of(a, threshold) is Measured <==> (a matches TauAttempt::Compared {
            reading1_xruns,
            reading2_xruns,
            comparison,
            ..
        } && reading1_xruns == 0 && reading2_xruns == 0 && comparison is Agree),
        outcome_of(a, threshold) matches TauOutcome::Measured { agreement_count, .. }
            ==> agreement_count == 2,
        a matches TauAttempt::Compared { reading1_xruns, reading2_xruns, .. } && (reading1_xruns
            > 0 || reading2_xruns > 0) ==> outcome_of(a, threshold) is RefusedXrun,
{
}

/// A finished calibration always tells the state of its latency, the value and
/// the count of readings that agreed; a healthy run carries no disagreement,
/// and only a run whose two readings were taken carries them.
pub proof fn the_latency_is_always_told(outcome: TauOutcome, frame: JsonV)
    requires
        frame is Obj,
        frame.field("tau_delta_samples"@) is None,
        frame.field("tau_reading1_xruns"@) is None,
    ensures
        outcome.frame_of(frame).field("tau_state"@) == Some(JsonV::Str(outcome.state_text())),
        outcome.frame_of(frame).field("tau_s"@) == Some(
            match outcome {
                TauOutcome::Measured { tau_s, .. } => finite_or_null(tau_s),
                _ => JsonV::Null,
            },
        ),
        outcome.frame_of(frame).field("tau_agreement_count"@) == Some(
            JsonV::Uint(
                match outcome {
                    TauOutcome::Measured { agreement_count, .. } => agreement_count as u64,
                    _ => 0,
                },
            ),
        ),
        outcome.frame_of(frame).field("tau_delta_samples"@) is Some <==> outcome is Disagree,
        outcome.frame_of(frame).field("tau_reading1_xruns"@) is Some <==> outcome is Measured
            || outcome is RefusedXrun || outcome is Disagree,
{
    fields_read_back();
    reveal_strlit("tau_state");
    reveal_strlit("tau_s");
    reveal_strlit("tau_agreement_count");
    reveal_strlit("tau_delta_samples");
    reveal_strlit("tau_reading1_xruns");
    reveal_strlit("tau_pre_impulse_snr_db");
    reveal_strlit("tau_snr_threshold_db");
    reveal_strlit("tau_reading1_s");
    reveal_strlit("tau_reading2_s");
    reveal_strlit("tau_reading2_xruns");
    reveal_strlit("tau_periods");
    reveal_strlit("tau_error");
    assert("tau_state"@.len() == 9);
    assert("tau_s"@.len() == 5);
    assert("tau_agreement_count"@.len() == 19);
    assert("tau_delta_samples"@.len() == 17);
    assert("tau_reading1_xruns"@.len() == 18);
    assert("tau_pre_impulse_snr_db"@.len() == 22);
    assert("tau_snr_threshold_db"@.len() == 20);
    assert("tau_reading1_s"@.len() == 14);
    assert("tau_reading2_s"@.len() == 14);
    assert("tau_reading2_xruns"@.len() == 18);
    assert("tau_periods"@.len() == 11);
    assert("tau_error"@.len() == 9);
    assert("tau_state"@[4] != "tau_error"@[4]);
    assert("tau_reading1_xruns"@[11] != "tau_reading2_xruns"@[11]);
}

/// The frame of an outcome that took two readings tells each under its own
/// name: the first as the first and the second as the second, and so the two
/// counts of xruns.
pub proof fn readings_are_told_by_name(outcome: TauOutcome, frame: JsonV)
    requires
        frame is Obj,
    ensures
        ({
            let told = outcome.frame_of(frame);
            match outcome {
                TauOutcome::Measured {
                    reading1_s: first_s,
                    reading2_s: second_s,
                    reading1_xruns: first_xruns,
                    reading2_xruns: second_xruns,
                    ..
                } => {
                    &&& told.field("tau_reading1_s"@) == Some(finite_or_null(first_s))
                    &&& told.field("tau_reading2_s"@) == Some(finite_or_null(second_s))
                    &&& told.field("tau_reading1_xruns"@) == Some(JsonV::Uint(first_xruns as u64))
                    &&& told.field("tau_reading2_xruns"@) == Some(JsonV::Uint(second_xruns as u64))
                },
                TauOutcome::RefusedXrun {
                    reading1_s: first_s,
                    reading2_s: second_s,
                    reading1_xruns: first_xruns,
                    reading2_xruns: second_xruns,
                    ..
                } => {
                    &&& told.field("tau_reading1_s"@) == Some(finite_or_null(first_s))
                    &&& told.field("tau_reading2_s"@) == Some(finite_or_null(second_s))
                    &&& told.field("tau_reading1_xruns"@) == Some(JsonV::Uint(first_xruns as u64))
                    &&& told.field("tau_reading2_xruns"@) == Some(JsonV::Uint(second_xruns as u64))
                },
                TauOutcome::Disagree {
                    reading1_s: first_s,
                    reading2_s: second_s,
                    reading1_xruns: first_xruns,
                    reading2_xruns: second_xruns,
                    ..
                } => {
                    &&& told.field("tau_reading1_s"@) == Some(finite_or_null(first_s))
                    &&& told.field("tau_reading2_s"@) == Some(finite_or_null(second_s))
                    &&& told.field("tau_reading1_xruns"@) == Some(JsonV::Uint(first_xruns as u64))
                    &&& told.field("tau_reading2_xruns"@) == Some(JsonV::Uint(second_xruns as u64))
                },
                _ => {
                    &&& told.field("tau_reading1_s"@) == frame.field("tau_reading1_s"@)
                    &&& told.field("tau_reading2_s"@) == frame.field("tau_reading2_s"@)
                    &&& told.field("tau_reading1_xruns"@) == frame.field("tau_reading1_xruns"@)
                    &&& told.field("tau_reading2_xruns"@) == frame.field("tau_reading2_xruns"@)
                },
            }
        }),
{
    fields_read_back();
    reveal_strlit("tau_state");
    reveal_strlit("tau_s");
    reveal_strlit("tau_agreement_count");
    reveal_strlit("tau_delta_samples");
    reveal_strlit("tau_reading1_xruns");
    reveal_strlit("tau_pre_impulse_snr_db");
    reveal_strlit("tau_snr_threshold_db");
    reveal_strlit("tau_reading1_s");
    reveal_strlit("tau_reading2_s");
    reveal_strlit("tau_reading2_xruns");
    reveal_strlit("tau_periods");
    reveal_strlit("tau_error");
    assert("tau_state"@.len() == 9);
    assert("tau_s"@.len() == 5);
    assert("tau_agreement_count"@.len() == 19);
    assert("tau_delta_samples"@.len() == 17);
    assert("tau_reading1_xruns"@.len() == 18);
    assert("tau_pre_impulse_snr_db"@.len() == 22);
    assert("tau_snr_threshold_db"@.len() == 20);
    assert("tau_reading1_s"@.len() == 14);
    assert("tau_reading2_s"@.len() == 14);
    assert("tau_reading2_xruns"@.len() == 18);
    assert("tau_periods"@.len() == 11);
    assert("tau_error"@.len() == 9);
    assert("tau_state"@[4] != "tau_error"@[4]);
    assert("tau_reading1_xruns"@[11] != "tau_reading2_xruns"@[11]);
    assert("tau_reading1_s"@[11] != "tau_reading2_s"@[11]);
}

/// The SNR that was observed and the threshold that it was held to are told
/// each under its own name, on every outcome that has them; a disagreement
/// tells how far the readings lie apart, in samples and in periods, and why;
/// and no field without `tau_` in front of its name is touched.
pub proof fn observations_are_told_by_name(outcome: TauOutcome, frame: JsonV, other: Seq<char>)
    requires
        frame is Obj,
        frame.field("tau_periods"@) is None,
        frame.field("tau_error"@) is None,
        frame.field("tau_pre_impulse_snr_db"@) is None,
        frame.field("tau_snr_threshold_db"@) is None,
        !"tau_"@.is_prefix_of(other),
    ensures
        ({
            let told = outcome.frame_of(frame);
            &&& told.field(other) == frame.field(other)
            &&& outcome matches TauOutcome::NotMeasuredLowSnr {
                pre_impulse_snr_db: observed,
                snr_threshold_db: needed,
                ..
            } ==> told.field("tau_pre_impulse_snr_db"@) == Some(finite_or_null(observed))
                && told.field("tau_snr_threshold_db"@) == Some(finite_or_null(needed))
            &&& outcome matches TauOutcome::Measured {
                pre_impulse_snr_db: observed,
                snr_threshold_db: needed,
                ..
            } ==> told.field("tau_pre_impulse_snr_db"@) == Some(finite_or_null(observed))
                && told.field("tau_snr_threshold_db"@) == Some(finite_or_null(needed))
            &&& outcome matches TauOutcome::Disagree {
                pre_impulse_snr_db: observed,
                snr_threshold_db: needed,
                delta_samples: apart,
                periods: apart_periods,
                message: why,
                ..
            } ==> told.field("tau_pre_impulse_snr_db"@) == Some(finite_or_null(observed))
                && told.field("tau_snr_threshold_db"@) == Some(finite_or_null(needed))
                && told.field("tau_delta_samples"@) == Some(integer_view(apart))
                && (apart_periods matches Some(n) ==> told.field("tau_periods"@) == Some(
                integer_view(n),
            )) && (apart_periods is None ==> told.field("tau_periods"@) is None)
                && told.field("tau_error"@) == Some(JsonV::Str(why@))
            &&& outcome matches TauOutcome::Error { message: why, .. } ==> told.field(
                "tau_error"@,
            ) == Some(JsonV::Str(why@)) && told.field("tau_snr_threshold_db"@) is None
            &&& outcome is RefusedXrun ==> told.field("tau_error"@) is None && told.field(
                "tau_pre_impulse_snr_db"@,
            ) is None
        }),
{
    fields_read_back();
    reveal_strlit("tau_state");
    reveal_strlit("tau_s");
    reveal_strlit("tau_agreement_count");
    reveal_strlit("tau_delta_samples");
    reveal_strlit("tau_reading1_xruns");
    reveal_strlit("tau_pre_impulse_snr_db");
    reveal_strlit("tau_snr_threshold_db");
    reveal_strlit("tau_reading1_s");
    reveal_strlit("tau_reading2_s");
    reveal_strlit("tau_reading2_xruns");
    reveal_strlit("tau_periods");
    reveal_strlit("tau_error");
    assert("tau_state"@.len() == 9);
    assert("tau_s"@.len() == 5);
    assert("tau_agreement_count"@.len() == 19);
    assert("tau_delta_samples"@.len() == 17);
    assert("tau_reading1_xruns"@.len() == 18);
    assert("tau_pre_impulse_snr_db"@.len() == 22);
    assert("tau_snr_threshold_db"@.len() == 20);
    assert("tau_reading1_s"@.len() == 14);
    assert("tau_reading2_s"@.len() == 14);
    assert("tau_reading2_xruns"@.len() == 18);
    assert("tau_periods"@.len() == 11);
    assert("tau_error"@.len() == 9);
    assert("tau_state"@[4] != "tau_error"@[4]);
    assert("tau_reading1_xruns"@[11] != "tau_reading2_xruns"@[11]);
    assert("tau_reading1_s"@[11] != "tau_reading2_s"@[11]);
    reveal_strlit("tau_");
    assert("tau_"@.is_prefix_of("tau_state"@));
    assert("tau_"@.is_prefix_of("tau_s"@));
    assert("tau_"@.is_prefix_of("tau_agreement_count"@));
    assert("tau_"@.is_prefix_of("tau_delta_samples"@));
    assert("tau_"@.is_prefix_of("tau_reading1_xruns"@));
    assert("tau_"@.is_prefix_of("tau_pre_impulse_snr_db"@));
    assert("tau_"@.is_prefix_of("tau_snr_threshold_db"@));
    assert("tau_"@.is_prefix_of("tau_reading1_s"@));
    assert("tau_"@.is_prefix_of("tau_reading2_s"@));
    assert("tau_"@.is_prefix_of("tau_reading2_xruns"@));
    assert("tau_"@.is_prefix_of("tau_periods"@));
    assert("tau_"@.is_prefix_of("tau_error"@));
}

/// An attempt of two readings keeps each as it was taken; the SNR that it
/// reports is one of the two and no better than either.
pub proof fn an_attempt_keeps_its_readings(
    first: TauReading,
    second: TauReading,
    comparison: TauComparison,
)
    ensures
        compared(first, second, comparison) matches TauAttempt::Compared {
            conditions,
            reading1_s,
            reading2_s,
            reading1_xruns,
            reading2_xruns,
            comparison: kept,
            pre_impulse_snr_db,
        } && reading1_s == first.tau_s && reading2_s == second.tau_s && reading1_xruns
            == first.xruns && reading2_xruns == second.xruns && kept == comparison && conditions
            == second.conditions && (pre_impulse_snr_db == first.snr_db || pre_impulse_snr_db
            == second.snr_db) && (!first.snr_db.nan() && !second.snr_db.nan()
            ==> pre_impulse_snr_db.at_most(first.snr_db) && pre_impulse_snr_db.at_most(
            second.snr_db,
        )),
{
}

/// What is reported of an attempt is what the attempt found: the readings, the
/// xruns, the SNR and the conditions pass through, a measured latency is the
/// mean of the comparison, and the threshold is the one that was applied.
pub proof fn an_outcome_reports_the_attempt(a: TauAttempt, applied: Double)
    requires
        a is Compared,
    ensures
        ({
            let r = outcome_of(a, applied);
            &&& a matches TauAttempt::Compared {
                conditions: under,
                reading1_s: first_s,
                reading2_s: second_s,
                reading1_xruns: first_xruns,
                reading2_xruns: second_xruns,
                comparison,
                pre_impulse_snr_db: observed,
            } && r.ran_under() == Some(under) && (r matches TauOutcome::Measured {
                tau_s,
                reading1_s,
                reading2_s,
                pre_impulse_snr_db,
                snr_threshold_db,
                reading1_xruns,
                reading2_xruns,
                ..
            } ==> comparison matches TauComparison::Agree { mean_s } && tau_s == mean_s
                && reading1_s == first_s && reading2_s == second_s && reading1_xruns
                == first_xruns && reading2_xruns == second_xruns && pre_impulse_snr_db == observed
                && snr_threshold_db == applied) && (r matches TauOutcome::RefusedXrun {
                reading1_s,
                reading2_s,
                reading1_xruns,
                reading2_xruns,
                ..
            } ==> reading1_s == first_s && reading2_s == second_s && reading1_xruns
                == first_xruns && reading2_xruns == second_xruns && (first_xruns > 0
                || second_xruns > 0)) && (r matches TauOutcome::Disagree {
                reading1_s,
                reading2_s,
                pre_impulse_snr_db,
                snr_threshold_db,
                reading1_xruns,
                reading2_xruns,
                delta_samples,
                periods,
                message,
                ..
            } ==> comparison matches TauComparison::Disagree {
                delta_samples: apart,
                periods: apart_periods,
                message: why,
            } && delta_samples == apart && periods == apart_periods && message == why
                && reading1_s == first_s && reading2_s == second_s && reading1_xruns
                == first_xruns && reading2_xruns == second_xruns && pre_impulse_snr_db == observed
                && snr_threshold_db == applied)
            &&& r is Measured || r is RefusedXrun || r is Disagree
        }),
{
}

/// An attempt that took no second reading is reported as it ended: a low SNR
/// with the SNR observed and the threshold applied, a failure with its
/// message, and either with the conditions that were known by then.
pub proof fn an_unfinished_attempt_is_reported(a: TauAttempt, applied: Double)
    ensures
        a matches TauAttempt::LowSnr { conditions: under, pre_impulse_snr_db: observed }
            ==> outcome_of(a, applied) == (TauOutcome::NotMeasuredLowSnr {
            conditions: under,
            pre_impulse_snr_db: observed,
            snr_threshold_db: applied,
        }) && outcome_of(a, applied).ran_under() == under,
        a matches TauAttempt::Error { conditions: under, message: why } ==> outcome_of(a, applied)
            == (TauOutcome::Error { conditions: under, message: why }) && outcome_of(
            a,
            applied,
        ).ran_under() == under,
{
}

/// What is stored is what was measured: nothing but a measured latency is ever
/// stored, with the conditions that it ran under, and the frame tells the same
/// latency and the same count.
pub proof fn what_is_stored_was_measured(outcome: TauOutcome, frame: JsonV)
    requires
        frame is Obj,
    ensures
        outcome.storable() is Some <==> outcome is Measured,
        outcome.storable() matches Some((under, latency, agreed)) ==> outcome.ran_under() is Some
            && under == outcome.ran_under()->0@ && outcome.frame_of(frame).field("tau_s"@) == Some(
            finite_or_null(latency),
        ) && outcome.frame_of(frame).field("tau_agreement_count"@) == Some(
            JsonV::Uint(agreed as u64),
        ) && outcome.frame_of(frame).field("tau_state"@) == Some(JsonV::Str("measured"@)),
{
    fields_read_back();
    reveal_strlit("tau_state");
    reveal_strlit("tau_s");
    reveal_strlit("tau_agreement_count");
    reveal_strlit("tau_delta_samples");
    reveal_strlit("tau_reading1_xruns");
    reveal_strlit("tau_pre_impulse_snr_db");
    reveal_strlit("tau_snr_threshold_db");
    reveal_strlit("tau_reading1_s");
    reveal_strlit("tau_reading2_s");
    reveal_strlit("tau_reading2_xruns");
    reveal_strlit("tau_periods");
    reveal_strlit("tau_error");
    assert("tau_state"@.len() == 9);
    assert("tau_s"@.len() == 5);
    assert("tau_agreement_count"@.len() == 19);
    assert("tau_delta_samples"@.len() == 17);
    assert("tau_reading1_xruns"@.len() == 18);
    assert("tau_pre_impulse_snr_db"@.len() == 22);
    assert("tau_snr_threshold_db"@.len() == 20);
    assert("tau_reading1_s"@.len() == 14);
    assert("tau_reading2_s"@.len() == 14);
    assert("tau_reading2_xruns"@.len() == 18);
    assert("tau_periods"@.len() == 11);
    assert("tau_error"@.len() == 9);
    assert("tau_state"@[4] != "tau_error"@[4]);
    assert("tau_reading1_xruns"@[11] != "tau_reading2_xruns"@[11]);
    assert("tau_reading1_s"@[11] != "tau_reading2_s"@[11]);
}

/// Each outcome has its own state on the wire.
pub proof fn states_tell_outcomes_apart(a: TauOutcome, b: TauOutcome)
    requires
        a.state_text() == b.state_text(),
    ensures
        a is Measured <==> b is Measured,
        a is NotMeasuredLowSnr <==> b is NotMeasuredLowSnr,
        a is RefusedXrun <==> b is RefusedXrun,
        a is Disagree <==> b is Disagree,
        a is Error <==> b is Error,
        a is Disagree ==> (a->Disagree_periods is Some <==> b->Disagree_periods is Some),
        a is Disagree && a->Disagree_periods is Some ==> a.state_text()
            == "disagree_period_shift"@,
        a is Measured ==> a.state_text() == "measured"@,
        a is Error ==> a.state_text() == "error"@,
        a is RefusedXrun ==> a.state_text() == "refused_xrun"@,
        a is NotMeasuredLowSnr ==> a.state_text() == "not_measured_low_snr"@,
{
    reveal_strlit("not_measured_low_snr");
    reveal_strlit("measured");
    reveal_strlit("refused_xrun");
    reveal_strlit("disagree_period_shift");
    reveal_strlit("disagree_other");
    reveal_strlit("error");
    assert("not_measured_low_snr"@.len() == 20);
    assert("measured"@.len() == 8);
    assert("refused_xrun"@.len() == 12);
    assert("disagree_period_shift"@.len() == 21);
    assert("disagree_other"@.len() == 14);
    assert("error"@.len() == 5);
}

/// A leg yields a reading exactly where its capture holds the window, a
/// response is there, the peak lies farther than the margin from both edges,
/// and an undisturbed capture has the SNR; the reading is the peak's distance
/// from the centre of the window.
pub proof fn a_reading_passed_every_test(
    half_window_s: Double,
    sr: u32,
    tail_s: Double,
    peak: Option<LegPeak>,
    margin_frac: Double,
    threshold: Double,
    xruns: u32,
)
    requires
        2 * half_samples(half_window_s, sr) <= usize::MAX,
    ensures
        ({
            let verdict = leg_verdict(
                half_window_s,
                sr,
                tail_s,
                peak,
                margin_frac,
                threshold,
                xruns,
            );
            let len = 2 * half_samples(half_window_s, sr);
            let margin = edge_margin(len as usize, margin_frac);
            &&& verdict is Ok <==> !tail_s.below(half_window_s.twice()) && peak is Some
                && peak->0.peak_idx > margin && peak->0.peak_idx + margin + 1 < len && (xruns > 0
                || !peak->0.snr_db.below(threshold))
            &&& verdict matches Ok(offset) ==> 2 * offset == 2 * peak->0.peak_idx - len
            &&& verdict matches Err(LegRefusal::Tail(t)) ==> t.tail_s == tail_s
                && t.half_window_s == half_window_s && t.tail_s.below(t.needed_s)
            &&& verdict matches Err(LegRefusal::EmptyIr) ==> peak is None
            &&& verdict matches Err(LegRefusal::LowSnr(l)) ==> peak is Some && l.snr_db
                == peak->0.snr_db && l.threshold_db == threshold && l.snr_db.below(l.threshold_db)
                && xruns == 0
            &&& verdict matches Err(LegRefusal::Edge(e)) ==> peak is Some && e.peak_idx
                == peak->0.peak_idx && e.window_len == len && e.margin == margin && (e.snr matches
                Some(s) ==> s.snr_db == peak->0.snr_db && s.threshold_db == threshold
                && s.below_threshold == s.snr_db.below(s.threshold_db))
        }),
{
}

/// An edge refusal places the peak within the window that it names: the ends
/// are as many samples apart as the window has, less one, and the peak lies as
/// far from the first as its index says.
pub proof fn offsets_are_within_the_window(e: EdgeRefusal)
    requires
        e.fits(),
        e.peak_idx < e.window_len,
    ensures
        e.first_offset() <= e.peak_offset() <= e.last_offset(),
        e.last_offset() - e.first_offset() == e.window_len - 1,
        e.peak_offset() - e.first_offset() == e.peak_idx,
        e.first_offset() <= 0,
        -e.first_offset() - 1 <= e.last_offset() <= -e.first_offset(),
{
}

} // verus!
