//! Taking in captured audio: the drain budget of a tick, the ring-buffered
//! capture that the CWT, CQT and reassigned modes share, and the report of a
//! failed capture.
use vstd::prelude::*;

use crate::channel::{ChannelState, RingKind};
use crate::double::{Double, Single};
use crate::frames::{scope_frame, scope_frame_of, TickCtx};
use crate::json::{fields_read_back, Json, JsonV};
use crate::ring::newest;
use crate::text::{dec, decimal};

verus! {

/// The fewest samples drained per tick.
pub const MIN_BUDGET: u64 = 128;

/// The minimum CWT ring fill before a column is emitted.
pub const CWT_MIN_FILL: usize = 256;

/// Samples that arrive in `secs` seconds at `sr`.
pub open spec fn arriving(secs: Double, sr: u32) -> nat {
    secs.cast(sr as nat, secs.times_truncated(sr as nat))
}

/// Samples to pull from the capture ring per tick, per channel.
pub open spec fn budget_of(per_ch_budget_secs: Double, sr: u32) -> int {
    if arriving(per_ch_budget_secs, sr) > MIN_BUDGET {
        arriving(per_ch_budget_secs, sr) as int
    } else {
        MIN_BUDGET as int
    }
}

/// Samples to pull from the capture ring per tick, per channel: what arrives
/// in the same time, with a floor and no ceiling.
pub fn capture_budget_samples(per_ch_budget_secs: Double, sr: u32) -> (r: u64)
    ensures
        r == budget_of(per_ch_budget_secs, sr),
        r >= arriving(per_ch_budget_secs, sr),
        r >= MIN_BUDGET,
{
    let n: u64 = per_ch_budget_secs.mul_trunc(sr as u64);
    if n > MIN_BUDGET {
        n
    } else {
        MIN_BUDGET
    }
}

/// The shortest per-channel budget, 2 ms, as a double.
pub const MIN_BUDGET_SECS: u64 = 0x3F60_624D_D2F1_A9FC;

/// A channel's share of the interval, at least 2 ms.
pub open spec fn share_of(share: Double) -> Double {
    if share.at_most(Double { bits: MIN_BUDGET_SECS }) || share.nan() {
        Double { bits: MIN_BUDGET_SECS }
    } else {
        share
    }
}

/// A channel's share of the interval, at least 2 ms.
pub fn budget_secs(share: Double) -> (r: Double)
    ensures
        r == share_of(share),
{
    let floor: Double = Double::new(MIN_BUDGET_SECS);
    if share.is_nan() || share.le(floor) {
        floor
    } else {
        share
    }
}

/// Samples left over in the capture ring after some ticks, each of which
/// drains at most `budget`.
pub open spec fn backlog(arrivals: Seq<nat>, budget: nat) -> nat
    decreases arrivals.len(),
{
    if arrivals.len() == 0 {
        0
    } else {
        let held = backlog(arrivals.drop_last(), budget) + arrivals.last();
        if held > budget {
            (held - budget) as nat
        } else {
            0
        }
    }
}

/// A monitor whose ticks take no longer than their budget never falls behind:
/// while no tick brings more samples than the budget, nothing is ever left
/// over.
pub proof fn the_budget_never_builds_a_backlog(arrivals: Seq<nat>, budget: nat)
    requires
        forall|i: int| 0 <= i < arrivals.len() ==> #[trigger] arrivals[i] <= budget,
    ensures
        backlog(arrivals, budget) == 0,
    decreases arrivals.len(),
{
    if arrivals.len() > 0 {
        the_budget_never_builds_a_backlog(arrivals.drop_last(), budget);
    }
}

/// The frame that reports a failed capture.
pub open spec fn capture_error(channel: u32, error: Seq<char>) -> JsonV {
    JsonV::obj().with("cmd"@, JsonV::Str("monitor_spectrum"@)).with(
        "message"@,
        JsonV::Str(
            "capture error on ch"@ + dec(channel as nat) + ": "@ + error,
        ),
    )
}

/// A capture, or the frame that reports its failure. A failure ends the
/// worker.
pub fn capture_or_report(captured: Result<Vec<Single>, String>, channel: u32) -> (r: Result<
    Vec<Single>,
    Json,
>)
    ensures
        match (captured, r) {
            (Ok(a), Ok(b)) => a == b,
            (Err(e), Err(f)) => f@ == capture_error(channel, e@),
            _ => false,
        },
{
    match captured {
        Ok(v) => Ok(v),
        Err(e) => Err(
            Json::obj().with("cmd", Json::string("monitor_spectrum")).with(
                "message",
                Json::Str(
                    "capture error on ch".to_owned().concat(
                        decimal(channel as u64).as_str(),
                    ).concat(": ").concat(e.as_str()),
                ),
            ),
        ),
    }
}

/// The outcome of one ring-buffered capture.
pub enum RingTick {
    /// The ring holds enough for a column; every frame of this capture quotes
    /// this xrun count.
    Ready { xruns: u32 },
    /// Not enough samples yet: skip the channel.
    NotReady,
    /// The capture failed; publish the frame and end the worker.
    Failed { frame: Json },
}

/// What a captured block makes of a channel, and what is published of it.
pub open spec fn taken_in(
    before: ChannelState,
    ctx: &TickCtx,
    kind: RingKind,
    captured: Result<Vec<Single>, String>,
    xruns: u32,
    ring_cap: usize,
    min_fill: usize,
    after: ChannelState,
    tick: RingTick,
    scope: Option<Json>,
) -> bool {
    match captured {
        Err(e) => {
            &&& after == before
            &&& tick matches RingTick::Failed { frame } && frame@ == capture_error(
                before.channel,
                e@,
            )
            &&& scope is None
        },
        Ok(samples) => {
            &&& after.same_but_mode_rings(&before)
            &&& forall|k: RingKind| #[trigger]
                after.ring_of(k) == (if k == kind {
                    newest(before.ring_of(k) + samples@, ring_cap as nat)
                } else {
                    before.ring_of(k)
                })
            &&& after.ring_of(kind).len() >= min_fill ==> tick == (RingTick::Ready { xruns })
            &&& after.ring_of(kind).len() < min_fill ==> tick is NotReady
            &&& scope matches Some(f) && f@ == scope_frame_of(
                before.channel,
                ctx,
                samples@,
                xruns,
            )
        },
    }
}

/// Take one captured block into a mode's ring, keeping its newest `ring_cap`
/// samples, and build the block's scope frame. A failed capture leaves the
/// channel as it was.
pub fn capture_into_ring(
    ch: &mut ChannelState,
    ctx: &TickCtx,
    kind: RingKind,
    captured: Result<Vec<Single>, String>,
    xruns: u32,
    ring_cap: usize,
    min_fill: usize,
) -> (r: (RingTick, Option<Json>))
    ensures
        taken_in(*old(ch), ctx, kind, captured, xruns, ring_cap, min_fill, *final(ch), r.0, r.1),
{
    let samples = match capture_or_report(captured, ch.channel) {
        Ok(v) => v,
        Err(frame) => return (RingTick::Failed { frame }, None),
    };
    let scope = scope_frame(ch.channel, ctx, &samples, xruns);
    ch.fill_ring(kind, &samples, ring_cap);
    let len: usize = match kind {
        RingKind::Cwt => ch.cwt_ring.len(),
        RingKind::Cqt => ch.cqt_ring.len(),
        RingKind::Reassigned => ch.reass_ring.len(),
    };
    assert(len == ch.ring_of(kind).len());
    if len < min_fill {
        return (RingTick::NotReady, Some(scope));
    }
    (RingTick::Ready { xruns }, Some(scope))
}

/// A timing line is logged on the first transform and every 50th after it.
pub fn transform_log_due(counter: &mut u32) -> (due: bool)
    requires
        *old(counter) < u32::MAX,
    ensures
        *final(counter) == *old(counter) + 1,
        due == (*final(counter) % 50 == 1),
{
    *counter = *counter + 1;
    *counter % 50 == 1
}

/// A tick drains what arrives while it lasts, and never less than 128 samples;
/// a channel's share of the interval is never less than 2 ms.
pub proof fn a_tick_drains_what_arrives(secs: Double, sr: u32, share: Double)
    ensures
        budget_of(secs, sr) >= 128,
        budget_of(secs, sr) >= arriving(secs, sr),
        budget_of(secs, sr) == 128 || budget_of(secs, sr) == arriving(secs, sr),
        ({
            let floor = Double { bits: 0x3F60_624D_D2F1_A9FC };
            &&& floor.at_most(share_of(share))
            &&& floor.below(share) ==> share_of(share) == share
            &&& !floor.below(share) ==> share_of(share) == floor
        }),
{
}

/// A block goes into the ring of its own mode and into no other; a column is
/// ready once that ring is filled; every block that was captured has its scope
/// frame. A failed capture changes nothing, shows nothing and is reported for
/// the channel that it failed on.
pub proof fn a_block_fills_its_own_ring(
    before: ChannelState,
    ctx: &TickCtx,
    kind: RingKind,
    captured: Result<Vec<Single>, String>,
    crossed: u32,
    cap: usize,
    fill: usize,
    after: ChannelState,
    tick: RingTick,
    scope: Option<Json>,
)
    requires
        taken_in(before, ctx, kind, captured, crossed, cap, fill, after, tick, scope),
    ensures
        captured is Err ==> after == before && tick is Failed && scope is None,
        captured matches Err(e) ==> tick->Failed_frame@.field("cmd"@) == Some(
            JsonV::Str("monitor_spectrum"@),
        ) && (tick->Failed_frame@.field("message"@) matches Some(JsonV::Str(m)) && e@.is_suffix_of(
            m,
        ) && ("capture error on ch"@ + dec(before.channel as nat)).is_prefix_of(m)),
        captured matches Ok(samples) ==> {
            &&& after.ring_of(kind) == newest(before.ring_of(kind) + samples@, cap as nat)
            &&& kind != RingKind::Cwt ==> after.cwt_ring@ == before.cwt_ring@
            &&& kind != RingKind::Cqt ==> after.cqt_ring@ == before.cqt_ring@
            &&& kind != RingKind::Reassigned ==> after.reass_ring@ == before.reass_ring@
            &&& after.fft_ring == before.fft_ring && after.lf == before.lf
            &&& after.reconnect == before.reconnect && after.integrator == before.integrator
            &&& tick is Ready <==> after.ring_of(kind).len() >= fill
            &&& tick is NotReady <==> after.ring_of(kind).len() < fill
            &&& tick matches RingTick::Ready { xruns } ==> xruns == crossed
            &&& scope is Some && scope->0@ == scope_frame_of(before.channel, ctx, samples@, crossed)
        },
{
    fields_read_back();
    reveal_strlit("cmd");
    reveal_strlit("message");
    assert("cmd"@.len() == 3);
    assert("message"@.len() == 7);
    if let Err(e) = captured {
        let head = "capture error on ch"@ + dec(before.channel as nat);
        let m = head + ": "@ + e@;
        assert(m.subrange(0, head.len() as int) =~= head);
        assert(m.subrange(m.len() - e@.len(), m.len() as int) =~= e@);
    }
    if let Ok(samples) = captured {
        assert(after.ring_of(RingKind::Cwt) == after.cwt_ring@);
        assert(after.ring_of(RingKind::Cqt) == after.cqt_ring@);
        assert(after.ring_of(RingKind::Reassigned) == after.reass_ring@);
    }
}

} // verus!
