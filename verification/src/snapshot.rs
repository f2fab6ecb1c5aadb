//! Snapshot rings, their memory ceiling, and what a snapshot says of itself.
//!
//! A ring is published pending, before the engine has reported its sample
//! rate, and started once it has. A pending ring holds no samples and yields
//! no snapshot.
use std::collections::VecDeque;
use vstd::prelude::*;

use crate::clock::utc_now;
use crate::double::{Double, Single, two_to};
use crate::json::opt_text;
use crate::ring::{contents, newest, push_within, the_newest_are_the_last};
use crate::text::{
    blanks, dec, dec_fixed, decimal, decimal_fixed, digit_char, fixed_numerals_denote_their_number,
    numeral_value, numerals_denote_their_number, pow10, spaces,
};
use crate::wire::{refusal_text, trailer_refusal, trailer_views, Problem};

verus! {

/// The longest ring, in seconds.
pub const MAX_SNAPSHOT_RING_S: u32 = 300;

/// The bit pattern of `MAX_SNAPSHOT_RING_S` as a double.
pub const MAX_RING_BITS: u64 = 0x4072_C000_0000_0000;

/// The memory ceiling of a session's rings, in bytes.
pub const MAX_SNAPSHOT_RING_BYTES: u64 = 1_000_000_000;

/// Bytes that a ring holds per sample per channel.
pub const RING_BYTES_PER_SAMPLE: u128 = 4;

/// The most bytes in one `snapshot_fetch` chunk, before base64.
pub const MAX_FETCH_CHUNK_BYTES: usize = 262_144;

/// The refusal while a session exists whose ring is still pending.
pub const SESSION_STARTING_ERROR: &'static str =
    "transfer_stream session starting \u{2014} audio engine start pending";

/// A ring length that has passed `RingSeconds::new`: finite, above zero and at
/// most `MAX_SNAPSHOT_RING_S`. The only way to size a ring.
#[derive(Clone, Copy, Debug, PartialEq, Eq, Structural)]
pub struct RingSeconds {
    seconds: Double,
}

impl RingSeconds {
    /// The length.
    pub closed spec fn value(self) -> Double {
        self.seconds
    }

    #[verifier::type_invariant]
    pub closed spec fn inv(self) -> bool {
        0 < self.seconds.bits <= MAX_RING_BITS
    }

    /// Accepts a number above zero and at most the ceiling; refuses, never
    /// clamps.
    pub fn new(x: Double) -> (r: Result<Self, Problem>)
        ensures
            match r {
                Ok(s) => s.value() == x && x.finite() && 0 < x.rank() <= MAX_RING_BITS,
                Err(Problem::NotPositive) => !x.finite() || x.rank() <= 0,
                Err(Problem::AtMost { limit, unit }) => {
                    &&& x.finite()
                    &&& x.rank() > MAX_RING_BITS
                    &&& limit == MAX_SNAPSHOT_RING_S
                    &&& unit@ == "s"@
                },
            },
    {
        if !(x.is_finite() && Double::new(0).lt(x)) {
            return Err(Problem::NotPositive);
        }
        if Double::new(MAX_RING_BITS).lt(x) {
            return Err(Problem::AtMost { limit: MAX_SNAPSHOT_RING_S, unit: "s" });
        }
        Ok(RingSeconds { seconds: x })
    }

    pub fn get(self) -> (r: Double)
        ensures
            r == self.value(),
            0 < r.bits <= MAX_RING_BITS,
    {
        proof {
            use_type_invariant(&self);
        }
        self.seconds
    }
}

/// Samples per channel of a ring: length times rate, rounded.
pub fn ring_cap_samples(ring_s: RingSeconds, sr: u32) -> (r: u64)
    ensures
        r == ring_s.value().times_rounded(sr as nat),
        r <= 0x20_0000_0000_0000,
{
    let s: Double = ring_s.get();
    s.mul_round(sr as u64)
}

/// A ring above the memory ceiling: the three factors and their product.
#[derive(Clone, Copy, Debug, PartialEq, Eq, Structural)]
pub struct RingTooLarge {
    pub needs_bytes: u128,
    pub channels: usize,
    pub ring_s: RingSeconds,
    pub sr: u32,
}

/// Bytes that a ring reserves.
pub open spec fn bytes_of(channels: usize, ring_s: RingSeconds, sr: u32) -> nat {
    channels as nat * ring_s.value().times_rounded(sr as nat) * RING_BYTES_PER_SAMPLE as nat
}

/// `channels` times samples per channel times bytes per sample. The samples
/// come from the function that sizes the allocation, so that check and
/// allocation cannot drift apart.
pub fn ring_bytes(channels: usize, ring_s: RingSeconds, sr: u32) -> (r: u128)
    ensures
        r == bytes_of(channels, ring_s, sr),
{
    let cap: u64 = ring_cap_samples(ring_s, sr);
    proof {
        assert(channels * cap * 4 <= 0xFFFF_FFFF_FFFF_FFFF * 0x20_0000_0000_0000 * 4)
            by (nonlinear_arith)
            requires
                channels <= 0xFFFF_FFFF_FFFF_FFFF,
                cap <= 0x20_0000_0000_0000,
        ;
        assert(channels * cap <= 0xFFFF_FFFF_FFFF_FFFF * 0x20_0000_0000_0000) by (nonlinear_arith)
            requires
                channels <= 0xFFFF_FFFF_FFFF_FFFF,
                cap <= 0x20_0000_0000_0000,
        ;
    }
    channels as u128 * cap as u128 * RING_BYTES_PER_SAMPLE
}

/// The bytes of a ring that fits the ceiling (a ring exactly at it is
/// accepted), else what the refusal needs.
pub fn check_ring_bytes(channels: usize, ring_s: RingSeconds, sr: u32) -> (r: Result<
    u128,
    RingTooLarge,
>)
    ensures
        match r {
            Ok(b) => b == bytes_of(channels, ring_s, sr) && b <= MAX_SNAPSHOT_RING_BYTES,
            Err(e) => {
                &&& e.needs_bytes == bytes_of(channels, ring_s, sr)
                &&& e.needs_bytes > MAX_SNAPSHOT_RING_BYTES
                &&& e.channels == channels
                &&& e.ring_s == ring_s
                &&& e.sr == sr
            },
        },
{
    let needs_bytes: u128 = ring_bytes(channels, ring_s, sr);
    if needs_bytes > MAX_SNAPSHOT_RING_BYTES as u128 {
        return Err(RingTooLarge { needs_bytes, channels, ring_s, sr });
    }
    Ok(needs_bytes)
}

/// Bytes as megabytes with six decimals, from integers: exact to the byte.
pub open spec fn mb_text(b: nat) -> Seq<char> {
    dec(b / 1_000_000) + "."@ + dec_fixed(b % 1_000_000, 6)
}

fn decimal_wide(n: u128) -> (r: String)
    ensures
        r@ == dec(n as nat),
    decreases n,
{
    if n < 10 {
        decimal(n as u64)
    } else {
        let low: u64 = (n % 10) as u64;
        let head = decimal_wide(n / 10);
        let last = decimal(low);
        proof {
            assert(dec(low as nat) =~= seq![digit_char(low as nat)]);
        }
        let r = head.concat(last.as_str());
        assert(r@ =~= dec(n as nat));
        r
    }
}

/// Bytes as megabytes with six decimals.
pub fn format_mb(b: u128) -> (r: String)
    ensures
        r@ == mb_text(b as nat),
{
    decimal_wide(b / 1_000_000).concat(".").concat(
        decimal_fixed((b % 1_000_000) as u64, 6).as_str(),
    )
}

/// Text right-aligned to `width` characters.
pub open spec fn right_aligned(s: Seq<char>, width: nat) -> Seq<char> {
    if s.len() < width {
        blanks((width - s.len()) as nat) + s
    } else {
        s
    }
}

fn right_align(s: &str, width: usize) -> (r: String)
    ensures
        r@ == right_aligned(s@, width as nat),
{
    let n: usize = s.unicode_len();
    if n < width {
        spaces(width - n).concat(s)
    } else {
        s.to_owned()
    }
}

impl RingTooLarge {
    /// The lines of the refusal.
    pub open spec fn trailers(self, ring_s_text: Seq<char>) -> Seq<(Seq<char>, Seq<char>)> {
        let needs = mb_text(self.needs_bytes as nat);
        let ceiling = mb_text(MAX_SNAPSHOT_RING_BYTES as nat);
        let w = if needs.len() > ceiling.len() {
            needs.len()
        } else {
            ceiling.len()
        };
        seq![
            ("needs"@, right_aligned(needs, w) + " MB"@),
            ("ceiling"@, right_aligned(ceiling, w) + " MB"@),
            ("channels"@, dec(self.channels as nat)),
            ("snapshot_ring_s"@, ring_s_text + " s"@),
            ("rate"@, dec(self.sr as nat) + " Hz"@),
            ("source"@, "config.json"@),
        ]
    }

    /// The refusal under `headline`: what arrived and the bound. The length is
    /// printed by the caller.
    pub fn refusal(&self, headline: &str, ring_s_text: &str) -> (r: String)
        ensures
            r@ == refusal_text(
                headline@,
                "snapshot ring exceeds the memory ceiling"@,
                self.trailers(ring_s_text@),
            ),
    {
        let needs = format_mb(self.needs_bytes);
        let ceiling = format_mb(MAX_SNAPSHOT_RING_BYTES as u128);
        let a: usize = needs.as_str().unicode_len();
        let b: usize = ceiling.as_str().unicode_len();
        let w: usize = if a > b {
            a
        } else {
            b
        };
        let mut t: Vec<(String, String)> = Vec::new();
        t.push(("needs".to_owned(), right_align(needs.as_str(), w).concat(" MB")));
        t.push(("ceiling".to_owned(), right_align(ceiling.as_str(), w).concat(" MB")));
        t.push(("channels".to_owned(), decimal(self.channels as u64)));
        t.push(("snapshot_ring_s".to_owned(), ring_s_text.to_owned().concat(" s")));
        t.push(("rate".to_owned(), decimal(self.sr as u64).concat(" Hz")));
        t.push(("source".to_owned(), "config.json".to_owned()));
        assert(trailer_views(t@) =~= self.trailers(ring_s_text@));
        trailer_refusal(headline, "snapshot ring exceeds the memory ceiling", &t)
    }
}

proof fn last_segment_is_read(a: nat, b: nat)
    ensures
        mb_text(a) == mb_text(b) ==> a == b,
{
    let la = dec(a / 1_000_000);
    let lb = dec(b / 1_000_000);
    let fa = dec_fixed(a % 1_000_000, 6);
    let fb = dec_fixed(b % 1_000_000, 6);
    assert(pow10(6) == 1_000_000) by {
        reveal_with_fuel(pow10, 7);
    }
    fixed_numerals_denote_their_number(a % 1_000_000, 6);
    fixed_numerals_denote_their_number(b % 1_000_000, 6);
    numerals_denote_their_number(a / 1_000_000);
    numerals_denote_their_number(b / 1_000_000);
    if mb_text(a) == mb_text(b) {
        let m = mb_text(a);
        let n = mb_text(b);
        reveal_strlit(".");
        assert(m.subrange(m.len() - 6, m.len() as int) =~= fa);
        assert(n.subrange(n.len() - 6, n.len() as int) =~= fb);
        assert(m.subrange(0, m.len() - 7) =~= la);
        assert(n.subrange(0, n.len() - 7) =~= lb);
        assert(a == 1_000_000 * (a / 1_000_000) + a % 1_000_000);
        assert(b == 1_000_000 * (b / 1_000_000) + b % 1_000_000);
    }
}

/// Different byte counts print differently: in particular no count above the
/// ceiling prints as the ceiling.
pub proof fn byte_counts_print_apart(a: nat, b: nat)
    requires
        a != b,
    ensures
        mb_text(a) != mb_text(b),
{
    last_segment_is_read(a, b);
}

/// One session's snapshot rings.
pub struct SnapshotRingState {
    /// The sample rate; 0 while pending.
    pub sr: u32,
    /// Session input channel per ring.
    pub unique_chans: Vec<u32>,
    /// The rings, one per entry of `unique_chans`.
    pub channels: Vec<VecDeque<Single>>,
    /// Samples per ring; 0 while pending.
    pub cap_samples: u64,
    /// The length in seconds while pending, nothing once started.
    pub pending_ring_s: Option<RingSeconds>,
    /// The measurement and reference channel of each pair.
    pub pairs: Vec<(u32, u32)>,
    /// The estimated delay of each pair, nothing until it is estimated.
    pub delay_samples: Vec<Option<i64>>,
    pub weighting_tag: String,
    pub integration_tag: String,
    /// The key of the calibration of each ring's channel, if it has one.
    pub unique_cals: Vec<Option<u64>>,
}

impl SnapshotRingState {
    /// One ring per channel, none above the cap, one delay per pair; while
    /// pending there is no rate, no cap and no sample.
    pub open spec fn wf(&self) -> bool {
        &&& self.channels.len() == self.unique_chans.len()
        &&& self.delay_samples.len() == self.pairs.len()
        &&& self.channels.len() > 0 ==> self.cap_samples <= usize::MAX
        &&& forall|i: int|
            0 <= i < self.channels.len() ==> (#[trigger] self.channels@[i])@.len()
                <= self.cap_samples
        &&& self.pending_ring_s is Some ==> self.sr == 0 && self.cap_samples == 0
    }

    /// What the session plan fixed, and nothing else.
    pub open spec fn same_plan(&self, other: &SnapshotRingState) -> bool {
        &&& self.unique_chans == other.unique_chans
        &&& self.pairs == other.pairs
        &&& self.delay_samples == other.delay_samples
        &&& self.weighting_tag == other.weighting_tag
        &&& self.integration_tag == other.integration_tag
        &&& self.unique_cals == other.unique_cals
        &&& self.channels.len() == other.channels.len()
    }

    /// The rings after a tick: each with a block has the newest samples, the
    /// others are as they were.
    pub open spec fn ticked(&self, before: &SnapshotRingState, bufs: Seq<Vec<Single>>) -> bool {
        forall|i: int|
            0 <= i < before.channels.len() ==> (#[trigger] self.channels@[i])@ == (if i
                < bufs.len() {
                newest(before.channels@[i]@ + bufs[i]@, before.cap_samples as nat)
            } else {
                before.channels@[i]@
            })
    }

    /// A pending ring once it is started at a rate.
    pub open spec fn started(&self, ring_s: RingSeconds, sr: u32) -> bool {
        &&& self.pending_ring_s is None
        &&& self.sr == sr
        &&& self.cap_samples == ring_s.value().times_rounded(sr as nat)
        &&& forall|i: int|
            0 <= i < self.channels.len() ==> (#[trigger] self.channels@[i])@.len() == 0
    }

    /// An already started ring with a known rate and cap.
    pub fn new(
        sr: u32,
        unique_chans: Vec<u32>,
        cap_samples: usize,
        pairs: Vec<(u32, u32)>,
        weighting_tag: String,
        integration_tag: String,
        unique_cals: Vec<Option<u64>>,
    ) -> (r: Self)
        ensures
            r.wf(),
            r.sr == sr,
            r.cap_samples == cap_samples,
            r.pending_ring_s is None,
            r.unique_chans == unique_chans,
            r.pairs == pairs,
            r.weighting_tag == weighting_tag,
            r.integration_tag == integration_tag,
            r.unique_cals == unique_cals,
            forall|i: int| 0 <= i < r.channels.len() ==> (#[trigger] r.channels@[i])@.len() == 0,
            forall|i: int| 0 <= i < pairs.len() ==> (#[trigger] r.delay_samples@[i]) is None,
    {
        let n: usize = unique_chans.len();
        let mut channels: Vec<VecDeque<Single>> = Vec::new();
        let mut i: usize = 0;
        while i < n
            invariant
                i <= n,
                channels.len() == i,
                forall|k: int| 0 <= k < i ==> (#[trigger] channels@[k])@.len() == 0,
            decreases n - i,
        {
            channels.push(VecDeque::with_capacity(cap_samples));
            i = i + 1;
        }
        let mut delay_samples: Vec<Option<i64>> = Vec::new();
        let m: usize = pairs.len();
        i = 0;
        while i < m
            invariant
                i <= m,
                delay_samples.len() == i,
                forall|k: int| 0 <= k < i ==> (#[trigger] delay_samples@[k]) is None,
            decreases m - i,
        {
            delay_samples.push(None);
            i = i + 1;
        }
        SnapshotRingState {
            sr,
            unique_chans,
            channels,
            cap_samples: cap_samples as u64,
            pending_ring_s: None,
            pairs,
            delay_samples,
            weighting_tag,
            integration_tag,
            unique_cals,
        }
    }

    /// A ring published before the engine has reported its sample rate, with
    /// its length held in seconds.
    pub fn pending(
        ring_s: RingSeconds,
        unique_chans: Vec<u32>,
        pairs: Vec<(u32, u32)>,
        weighting_tag: String,
        integration_tag: String,
        unique_cals: Vec<Option<u64>>,
    ) -> (r: Self)
        ensures
            r.wf(),
            r.pending_ring_s == Some(ring_s),
            r.sr == 0,
            r.cap_samples == 0,
            r.unique_chans == unique_chans,
            r.pairs == pairs,
            r.weighting_tag == weighting_tag,
            r.integration_tag == integration_tag,
            r.unique_cals == unique_cals,
            forall|i: int| 0 <= i < r.channels.len() ==> (#[trigger] r.channels@[i])@.len() == 0,
            forall|i: int| 0 <= i < pairs.len() ==> (#[trigger] r.delay_samples@[i]) is None,
    {
        let mut ring = SnapshotRingState::new(
            0,
            unique_chans,
            0,
            pairs,
            weighting_tag,
            integration_tag,
            unique_cals,
        );
        ring.pending_ring_s = Some(ring_s);
        ring
    }

    /// Fix the sample rate and allocate the cap. Nothing happens to a ring
    /// that is already started; a ring above the memory ceiling at this rate
    /// is refused with nothing allocated and stays pending.
    pub fn start(&mut self, sr: u32) -> (r: Result<(), RingTooLarge>)
        requires
            old(self).wf(),
        ensures
            final(self).wf(),
            final(self).same_plan(old(self)),
            match (old(self).pending_ring_s, r) {
                (None, Ok(_)) => *final(self) == *old(self),
                (None, Err(_)) => false,
                (Some(ring_s), Ok(_)) => {
                    &&& bytes_of(old(self).channels.len(), ring_s, sr) <= MAX_SNAPSHOT_RING_BYTES
                    &&& final(self).started(ring_s, sr)
                },
                (Some(ring_s), Err(e)) => {
                    &&& bytes_of(old(self).channels.len(), ring_s, sr) > MAX_SNAPSHOT_RING_BYTES
                    &&& e.needs_bytes == bytes_of(old(self).channels.len(), ring_s, sr)
                    &&& e.channels == old(self).channels.len()
                    &&& e.ring_s == ring_s
                    &&& e.sr == sr
                    &&& *final(self) == *old(self)
                },
            },
    {
        let ring_s: RingSeconds = match self.pending_ring_s {
            None => return Ok(()),
            Some(s) => s,
        };
        match check_ring_bytes(self.channels.len(), ring_s, sr) {
            Ok(_) => {},
            Err(e) => return Err(e),
        }
        let cap: u64 = ring_cap_samples(ring_s, sr);
        let n: usize = self.channels.len();
        if n > 0 {
            proof {
                assert(cap * 4 <= n * cap * 4) by (nonlinear_arith)
                    requires
                        n >= 1,
                        cap >= 0,
                ;
            }
            let mut channels: Vec<VecDeque<Single>> = Vec::new();
            let mut i: usize = 0;
            while i < n
                invariant
                    i <= n,
                    cap <= usize::MAX,
                    channels.len() == i,
                    forall|k: int| 0 <= k < i ==> (#[trigger] channels@[k])@.len() == 0,
                decreases n - i,
            {
                channels.push(VecDeque::with_capacity(cap as usize));
                i = i + 1;
            }
            self.channels = channels;
        }
        self.pending_ring_s = None;
        self.sr = sr;
        self.cap_samples = cap;
        Ok(())
    }

    /// False from `pending` until `start`.
    pub fn is_started(&self) -> (r: bool)
        ensures
            r == (self.pending_ring_s is None),
    {
        self.pending_ring_s.is_none()
    }

    /// Push one tick's samples, one block per ring, keeping the newest
    /// `cap_samples` of each. Blocks without a ring are ignored, rings without
    /// a block stay as they are.
    pub fn push_tick(&mut self, bufs: &Vec<Vec<Single>>)
        requires
            old(self).wf(),
        ensures
            final(self).wf(),
            final(self).same_plan(old(self)),
            final(self).sr == old(self).sr,
            final(self).cap_samples == old(self).cap_samples,
            final(self).pending_ring_s == old(self).pending_ring_s,
            final(self).ticked(old(self), bufs@),
    {
        let mut i: usize = 0;
        while i < bufs.len() && i < self.channels.len()
            invariant
                i <= bufs.len(),
                i <= self.channels.len(),
                self.wf(),
                self.same_plan(old(self)),
                self.sr == old(self).sr,
                self.cap_samples == old(self).cap_samples,
                self.pending_ring_s == old(self).pending_ring_s,
                forall|k: int|
                    0 <= k < self.channels.len() ==> (#[trigger] self.channels@[k])@ == (if k < i {
                        newest(
                            old(self).channels@[k]@ + bufs@[k]@,
                            old(self).cap_samples as nat,
                        )
                    } else {
                        old(self).channels@[k]@
                    }),
            decreases self.channels.len() - i,
        {
            let cap: usize = self.cap_samples as usize;
            assert(self.channels@[i as int]@.len() <= cap);
            push_within(&mut self.channels[i], &bufs[i], cap);
            i = i + 1;
        }
    }
}

/// A pending ring stays empty whatever is pushed: its cap is zero.
pub proof fn a_pending_ring_never_grows(r: &SnapshotRingState, i: int, block: Seq<Single>)
    requires
        r.wf(),
        r.pending_ring_s is Some,
        0 <= i < r.channels.len(),
    ensures
        r.channels@[i]@.len() == 0,
        newest(r.channels@[i]@ + block, r.cap_samples as nat).len() == 0,
{
}

/// The samples that a started ring may hold take exactly the bytes that the
/// ceiling check compared.
pub proof fn reserved_bytes_are_the_checked_bytes(
    r: &SnapshotRingState,
    ring_s: RingSeconds,
    sr: u32,
)
    requires
        r.cap_samples == ring_s.value().times_rounded(sr as nat),
    ensures
        r.channels.len() as nat * r.cap_samples as nat * 4 == bytes_of(
            r.channels.len(),
            ring_s,
            sr,
        ),
{
}

/// What a snapshot says of one channel.
#[derive(Debug)]
pub struct ChannelMeta {
    pub role: String,
    pub input_channel: u32,
    pub weighting: String,
    pub integration: String,
    pub calibration: Option<u64>,
    pub voltage_check: Option<String>,
    /// The digest of the encoded stream; none before it is encoded.
    pub stream_sha256: Option<String>,
}

/// What a snapshot says of itself.
#[derive(Debug)]
pub struct SnapshotMeta {
    pub format_version: u32,
    pub sr: u32,
    pub channel_map: Vec<String>,
    pub per_channel: Vec<ChannelMeta>,
    pub pairs: Vec<(u32, u32)>,
    pub delay_samples: Vec<i64>,
    pub nperseg: u32,
    pub captured_at_utc: String,
    pub daemon_version: String,
    /// Frames in the ring; its duration is this over `sr`.
    pub ring_frames: usize,
}

/// The first pair, from `from` on, that uses channel `c`, and whether it is
/// its measurement leg.
pub open spec fn first_use(pairs: Seq<(u32, u32)>, c: u32, from: nat) -> Option<(nat, bool)>
    decreases pairs.len() - from,
{
    if from >= pairs.len() {
        None
    } else if pairs[from as int].0 == c {
        Some((from, true))
    } else if pairs[from as int].1 == c {
        Some((from, false))
    } else {
        first_use(pairs, c, from + 1)
    }
}

/// The role of the channel at `pos`: that of its first occurrence in the
/// pairs, later ones do not rename it. A repeated channel is named by its
/// first position only.
pub open spec fn role_of(chans: Seq<u32>, pairs: Seq<(u32, u32)>, pos: int) -> Seq<char> {
    let c = chans[pos];
    if exists|k: int| 0 <= k < pos && #[trigger] chans[k] == c {
        "ch_"@ + dec(c as nat)
    } else {
        match first_use(pairs, c, 0) {
            Some((i, true)) => "meas_"@ + dec(i),
            Some((_, false)) => "ref"@,
            None => "ch_"@ + dec(c as nat),
        }
    }
}

fn role(chans: &Vec<u32>, pairs: &Vec<(u32, u32)>, pos: usize) -> (r: String)
    requires
        pos < chans.len(),
    ensures
        r@ == role_of(chans@, pairs@, pos as int),
{
    let c: u32 = chans[pos];
    let mut k: usize = 0;
    while k < pos
        invariant
            k <= pos < chans.len(),
            c == chans@[pos as int],
            forall|j: int| 0 <= j < k ==> #[trigger] chans@[j] != c,
        decreases pos - k,
    {
        if chans[k] == c {
            assert(chans@[k as int] == c);
            return "ch_".to_owned().concat(decimal(c as u64).as_str());
        }
        k = k + 1;
    }
    let mut i: usize = 0;
    while i < pairs.len()
        invariant
            i <= pairs.len(),
            pos < chans.len(),
            c == chans@[pos as int],
            forall|j: int| 0 <= j < pos ==> #[trigger] chans@[j] != c,
            first_use(pairs@, c, 0) == first_use(pairs@, c, i as nat),
        decreases pairs.len() - i,
    {
        if pairs[i].0 == c {
            return "meas_".to_owned().concat(decimal(i as u64).as_str());
        }
        if pairs[i].1 == c {
            return "ref".to_owned();
        }
        i = i + 1;
    }
    "ch_".to_owned().concat(decimal(c as u64).as_str())
}

/// The lesser of two lengths.
pub open spec fn shorter(a: nat, b: nat) -> nat {
    if a < b {
        a
    } else {
        b
    }
}

impl SnapshotRingState {
    /// What the metadata of this ring says in a format version, taken at
    /// `captured_at` by `daemon_version`.
    pub open spec fn described_by(
        &self,
        m: &SnapshotMeta,
        daemon_version: Seq<char>,
        format_version: u32,
        captured_at: Seq<char>,
    ) -> bool {
        &&& m.format_version == format_version
        &&& m.sr == self.sr
        &&& m.nperseg == self.sr
        &&& m.channel_map.len() == self.unique_chans.len()
        &&& forall|i: int|
            0 <= i < self.unique_chans.len() ==> (#[trigger] m.channel_map@[i])@ == role_of(
                self.unique_chans@,
                self.pairs@,
                i,
            )
        &&& m.per_channel.len() == shorter(self.unique_chans@.len(), self.unique_cals@.len())
        &&& forall|i: int|
            0 <= i < m.per_channel.len() ==> {
                let c = #[trigger] m.per_channel@[i];
                &&& c.role@ == role_of(self.unique_chans@, self.pairs@, i)
                &&& c.input_channel == self.unique_chans@[i]
                &&& c.weighting@ == self.weighting_tag@
                &&& c.integration@ == self.integration_tag@
                &&& c.calibration == self.unique_cals@[i]
                &&& c.voltage_check is None
                &&& c.stream_sha256 is None
            }
        &&& m.pairs@ == self.pairs@
        &&& m.delay_samples.len() == self.delay_samples.len()
        &&& forall|i: int|
            0 <= i < self.delay_samples.len() ==> #[trigger] m.delay_samples@[i] == (
            match self.delay_samples@[i] {
                Some(d) => d,
                None => 0i64,
            })
        &&& m.captured_at_utc@ == captured_at
        &&& m.daemon_version@ == daemon_version
        &&& m.ring_frames == (if self.channels.len() > 0 {
            self.channels@[0]@.len()
        } else {
            0
        })
    }

    /// The current contents of the ring and their description, or nothing
    /// from a pending ring: without a sample rate there is nothing to encode.
    pub fn snapshot_meta_at(
        &self,
        daemon_version: &str,
        format_version: u32,
        captured_at: String,
    ) -> (r: Option<(SnapshotMeta, Vec<Vec<Single>>)>)
        requires
            self.wf(),
        ensures
            match r {
                None => self.pending_ring_s is Some,
                Some((m, ch)) => {
                    &&& self.pending_ring_s is None
                    &&& self.described_by(&m, daemon_version@, format_version, captured_at@)
                    &&& ch.len() == self.channels.len()
                    &&& forall|i: int|
                        0 <= i < ch.len() ==> (#[trigger] ch@[i])@ == self.channels@[i]@
                },
            },
    {
        if !self.is_started() {
            return None;
        }
        let mut channels: Vec<Vec<Single>> = Vec::new();
        let mut i: usize = 0;
        while i < self.channels.len()
            invariant
                i <= self.channels.len(),
                channels.len() == i,
                forall|k: int| 0 <= k < i ==> (#[trigger] channels@[k])@ == self.channels@[k]@,
            decreases self.channels.len() - i,
        {
            channels.push(contents(&self.channels[i]));
            i = i + 1;
        }
        let ring_frames: usize = if channels.len() > 0 {
            channels[0].len()
        } else {
            0
        };
        let mut channel_map: Vec<String> = Vec::new();
        let mut per_channel: Vec<ChannelMeta> = Vec::new();
        i = 0;
        while i < self.unique_chans.len()
            invariant
                i <= self.unique_chans.len(),
                channel_map.len() == i,
                per_channel.len() == shorter(i as nat, self.unique_cals@.len()),
                forall|k: int|
                    0 <= k < i ==> (#[trigger] channel_map@[k])@ == role_of(
                        self.unique_chans@,
                        self.pairs@,
                        k,
                    ),
                forall|k: int|
                    0 <= k < per_channel.len() ==> {
                        let c = #[trigger] per_channel@[k];
                        &&& c.role@ == role_of(self.unique_chans@, self.pairs@, k)
                        &&& c.input_channel == self.unique_chans@[k]
                        &&& c.weighting@ == self.weighting_tag@
                        &&& c.integration@ == self.integration_tag@
                        &&& c.calibration == self.unique_cals@[k]
                        &&& c.voltage_check is None
                &&& c.stream_sha256 is None
                    },
            decreases self.unique_chans.len() - i,
        {
            let name = role(&self.unique_chans, &self.pairs, i);
            if i < self.unique_cals.len() {
                per_channel.push(
                    ChannelMeta {
                        role: name.clone(),
                        input_channel: self.unique_chans[i],
                        weighting: self.weighting_tag.clone(),
                        integration: self.integration_tag.clone(),
                        calibration: self.unique_cals[i],
                        voltage_check: None,
                        stream_sha256: None,
                    },
                );
            }
            channel_map.push(name);
            i = i + 1;
        }
        let mut delay_samples: Vec<i64> = Vec::new();
        i = 0;
        while i < self.delay_samples.len()
            invariant
                i <= self.delay_samples.len(),
                delay_samples.len() == i,
                forall|k: int|
                    0 <= k < i ==> #[trigger] delay_samples@[k] == (
                    match self.delay_samples@[k] {
                        Some(d) => d,
                        None => 0i64,
                    }),
            decreases self.delay_samples.len() - i,
        {
            match self.delay_samples[i] {
                Some(d) => delay_samples.push(d),
                None => delay_samples.push(0),
            }
            i = i + 1;
        }
        let mut pairs: Vec<(u32, u32)> = Vec::new();
        i = 0;
        assert(self.pairs@.take(0) =~= Seq::empty());
        while i < self.pairs.len()
            invariant
                i <= self.pairs.len(),
                pairs@ == self.pairs@.take(i as int),
            decreases self.pairs.len() - i,
        {
            pairs.push(self.pairs[i]);
            assert(self.pairs@.take(i + 1) =~= self.pairs@.take(i as int).push(
                self.pairs@[i as int],
            ));
            i = i + 1;
        }
        assert(self.pairs@.take(i as int) =~= self.pairs@);
        let meta = SnapshotMeta {
            format_version,
            sr: self.sr,
            channel_map,
            per_channel,
            pairs,
            delay_samples,
            nperseg: self.sr,
            captured_at_utc: captured_at,
            daemon_version: daemon_version.to_owned(),
            ring_frames,
        };
        Some((meta, channels))
    }

    /// The current contents of the ring and their description, stamped with
    /// the current time.
    pub fn snapshot_meta_and_channels(&self, daemon_version: &str, format_version: u32) -> (r:
        Option<(SnapshotMeta, Vec<Vec<Single>>)>)
        requires
            self.wf(),
        ensures
            match r {
                None => self.pending_ring_s is Some,
                Some((m, ch)) => {
                    &&& self.pending_ring_s is None
                    &&& self.described_by(&m, daemon_version@, format_version, m.captured_at_utc@)
                    &&& ch.len() == self.channels.len()
                    &&& forall|i: int|
                        0 <= i < ch.len() ==> (#[trigger] ch@[i])@ == self.channels@[i]@
                },
            },
    {
        self.snapshot_meta_at(daemon_version, format_version, utc_now())
    }
}

/// The verdict applied to an input channel at session start.
pub open spec fn applied_to(applied: Seq<(u32, String)>, channel: u32) -> Option<Seq<char>>
    decreases applied.len(),
{
    if applied.len() == 0 {
        None
    } else if applied[0].0 == channel {
        Some(applied[0].1@)
    } else {
        applied_to(applied.drop_first(), channel)
    }
}

/// What the transfer session applied to an input channel, if anything.
pub fn transfer_applied(applied: &Vec<(u32, String)>, channel: u32) -> (r: Option<String>)
    ensures
        opt_text(r) == applied_to(applied@, channel),
{
    let mut i: usize = 0;
    let ghost all = applied@;
    assert(all.subrange(0, all.len() as int) =~= all);
    while i < applied.len()
        invariant
            i <= applied.len(),
            all == applied@,
            applied_to(all, channel) == applied_to(
                all.subrange(i as int, all.len() as int),
                channel,
            ),
        decreases applied.len() - i,
    {
        let ghost rest = all.subrange(i as int, all.len() as int);
        assert(rest.drop_first() =~= all.subrange(i + 1, all.len() as int));
        if applied[i].0 == channel {
            return Some(applied[i].1.clone());
        }
        i = i + 1;
    }
    None
}

/// Fill in the verdict that the session applied to each channel.
pub fn fill_voltage_checks(meta: &mut SnapshotMeta, applied: &Vec<(u32, String)>)
    ensures
        final(meta).format_version == old(meta).format_version,
        final(meta).sr == old(meta).sr,
        final(meta).channel_map == old(meta).channel_map,
        final(meta).pairs == old(meta).pairs,
        final(meta).delay_samples == old(meta).delay_samples,
        final(meta).nperseg == old(meta).nperseg,
        final(meta).captured_at_utc == old(meta).captured_at_utc,
        final(meta).daemon_version == old(meta).daemon_version,
        final(meta).ring_frames == old(meta).ring_frames,
        final(meta).per_channel.len() == old(meta).per_channel.len(),
        forall|i: int|
            0 <= i < old(meta).per_channel.len() ==> {
                let a = #[trigger] final(meta).per_channel@[i];
                let b = old(meta).per_channel@[i];
                &&& a.role == b.role
                &&& a.input_channel == b.input_channel
                &&& a.weighting == b.weighting
                &&& a.integration == b.integration
                &&& a.calibration == b.calibration
                &&& a.stream_sha256 == b.stream_sha256
                &&& opt_text(a.voltage_check) == applied_to(
                    applied@,
                    b.input_channel,
                )
            },
{
    let mut i: usize = 0;
    while i < meta.per_channel.len()
        invariant
            i <= meta.per_channel.len(),
            meta.format_version == old(meta).format_version,
            meta.sr == old(meta).sr,
            meta.channel_map == old(meta).channel_map,
            meta.pairs == old(meta).pairs,
            meta.delay_samples == old(meta).delay_samples,
            meta.nperseg == old(meta).nperseg,
            meta.captured_at_utc == old(meta).captured_at_utc,
            meta.daemon_version == old(meta).daemon_version,
            meta.ring_frames == old(meta).ring_frames,
            meta.per_channel.len() == old(meta).per_channel.len(),
            forall|k: int|
                0 <= k < meta.per_channel.len() ==> {
                    let a = #[trigger] meta.per_channel@[k];
                    let b = old(meta).per_channel@[k];
                    &&& a.role == b.role
                    &&& a.input_channel == b.input_channel
                    &&& a.weighting == b.weighting
                    &&& a.integration == b.integration
                    &&& a.calibration == b.calibration
                    &&& a.stream_sha256 == b.stream_sha256
                    &&& k < i ==> opt_text(a.voltage_check) == applied_to(
                        applied@,
                        b.input_channel,
                    )
                },
        decreases meta.per_channel.len() - i,
    {
        let found = transfer_applied(applied, meta.per_channel[i].input_channel);
        meta.per_channel[i].voltage_check = found;
        i = i + 1;
    }
}

/// A snapshot carries one delay for each pair, whenever it is taken.
pub proof fn a_snapshot_has_one_delay_per_pair(
    ring: &SnapshotRingState,
    meta: &SnapshotMeta,
    daemon_version: Seq<char>,
    format_version: u32,
    captured_at: Seq<char>,
)
    requires
        ring.wf(),
        ring.described_by(meta, daemon_version, format_version, captured_at),
    ensures
        meta.delay_samples@.len() == meta.pairs@.len(),
        meta.pairs@ == ring.pairs@,
{
}

/// A ring is at most 300 seconds long and its rings together at most a
/// gigabyte, at four bytes a sample.
pub proof fn the_bounds_of_a_ring(channels: usize, ring_s: RingSeconds, sr: u32)
    ensures
        MAX_SNAPSHOT_RING_S == 300,
        (Double { bits: MAX_RING_BITS }).significand() == 300 * two_to(44),
        (Double { bits: MAX_RING_BITS }).scale() == -44,
        MAX_SNAPSHOT_RING_BYTES == 1_000_000_000,
        bytes_of(channels, ring_s, sr) == 4 * (channels as nat * ring_s.value().times_rounded(
            sr as nat,
        )),
{
    assert(two_to(44) == 0x1000_0000_0000) by {
        reveal_with_fuel(two_to, 23);
        assert(two_to(22) == 0x40_0000);
        assert(two_to(44) == 0x40_0000 * two_to(22));
    }
    let n = channels as nat;
    let m = ring_s.value().times_rounded(sr as nat);
    assert(n * m * 4 == 4 * (n * m)) by (nonlinear_arith);
}

/// Each further channel costs as much memory as the first.
pub proof fn every_channel_costs_the_same(n: usize, ring_s: RingSeconds, sr: u32)
    requires
        n < usize::MAX,
    ensures
        bytes_of((n + 1) as usize, ring_s, sr) == bytes_of(n, ring_s, sr) + bytes_of(
            1,
            ring_s,
            sr,
        ),
        bytes_of(0, ring_s, sr) == 0,
{
    let m = ring_s.value().times_rounded(sr as nat);
    assert((n + 1) * m * 4 == n * m * 4 + 1 * m * 4) by (nonlinear_arith);
    assert(0 * m * 4 == 0) by (nonlinear_arith);
}

/// A size in megabytes reads back to the byte: whole megabytes before the
/// point, six digits of the rest after it.
pub proof fn sizes_read_back(b: nat)
    ensures
        ({
            let t = mb_text(b);
            let whole = dec(b / 1_000_000).len() as int;
            &&& t.len() == whole + 7
            &&& t[whole] == '.'
            &&& numeral_value(t.take(whole)) * 1_000_000 + numeral_value(
                t.subrange(whole + 1, t.len() as int),
            ) == b
        }),
{
    reveal_strlit(".");
    let t = mb_text(b);
    let a = dec(b / 1_000_000);
    let f = dec_fixed(b % 1_000_000, 6);
    numerals_denote_their_number(b / 1_000_000);
    reveal_with_fuel(pow10, 7);
    fixed_numerals_denote_their_number(b % 1_000_000, 6);
    assert(f.len() == 6) by {
        reveal_with_fuel(dec_fixed, 7);
    }
    assert(t.take(a.len() as int) =~= a);
    assert(t.subrange(a.len() as int + 1, t.len() as int) =~= f);
}

/// Aligned text keeps its characters at the end, with spaces before it.
pub proof fn alignment_adds_spaces_in_front(s: Seq<char>, width: nat)
    ensures
        right_aligned(s, width).len() == (if s.len() < width {
            width
        } else {
            s.len()
        }),
        right_aligned(s, width).subrange(
            right_aligned(s, width).len() - s.len(),
            right_aligned(s, width).len() as int,
        ) == s,
        forall|i: int|
            0 <= i < right_aligned(s, width).len() - s.len() ==> #[trigger] right_aligned(
                s,
                width,
            )[i] == ' ',
{
    let t = right_aligned(s, width);
    assert(t.subrange(t.len() - s.len(), t.len() as int) =~= s);
}

/// The refusal of a ring tells what it needs and the ceiling, in one column,
/// and each factor of the product.
pub proof fn a_refused_ring_tells_its_factors(e: RingTooLarge, shown: Seq<char>)
    ensures
        ({
            let t = e.trailers(shown);
            let needs = mb_text(e.needs_bytes as nat);
            let ceiling = mb_text(1_000_000_000);
            &&& t.len() == 6
            &&& t[0].0 == "needs"@ && t[1].0 == "ceiling"@ && t[2].0 == "channels"@
            &&& t[3].0 == "snapshot_ring_s"@ && t[4].0 == "rate"@ && t[5].0 == "source"@
            &&& t[0].1.len() == t[1].1.len()
            &&& needs.len() >= ceiling.len() ==> t[0].1 == needs + " MB"@
            &&& ceiling.len() >= needs.len() ==> t[1].1 == ceiling + " MB"@
            &&& t[2].1 == dec(e.channels as nat)
            &&& t[3].1 == shown + " s"@
            &&& t[4].1 == dec(e.sr as nat) + " Hz"@
            &&& t[5].1 == "config.json"@
        }),
{
    let needs = mb_text(e.needs_bytes as nat);
    let ceiling = mb_text(1_000_000_000);
    let w = if needs.len() > ceiling.len() {
        needs.len()
    } else {
        ceiling.len()
    };
    alignment_adds_spaces_in_front(needs, w);
    alignment_adds_spaces_in_front(ceiling, w);
}

/// A started ring has its rate, room for its length at that rate, and no
/// sample yet; it takes the memory that was checked.
pub proof fn a_started_ring_is_empty(r: &SnapshotRingState, ring_s: RingSeconds, sr: u32, i: int)
    requires
        r.started(ring_s, sr),
    ensures
        r.pending_ring_s is None,
        r.sr == sr,
        r.channels.len() as nat * r.cap_samples as nat * 4 == bytes_of(
            r.channels.len(),
            ring_s,
            sr,
        ),
        0 <= i < r.channels.len() ==> r.channels@[i]@ == Seq::<Single>::empty(),
{
}

/// After a tick a ring ends with the newest samples of its own block and holds
/// as many as it has room for; rings without a block are untouched.
pub proof fn a_ring_ends_with_its_own_block(
    a: &SnapshotRingState,
    b: &SnapshotRingState,
    bufs: Seq<Vec<Single>>,
    i: int,
)
    requires
        a.wf(),
        b.ticked(a, bufs),
        0 <= i < a.channels.len(),
    ensures
        i >= bufs.len() ==> b.channels@[i]@ == a.channels@[i]@,
        i < bufs.len() ==> {
            let all = a.channels@[i]@ + bufs[i]@;
            let kept = b.channels@[i]@;
            &&& all.len() <= a.cap_samples ==> kept == all
            &&& all.len() > a.cap_samples ==> kept.len() == a.cap_samples
            &&& forall|k: int|
                0 <= k < kept.len() ==> #[trigger] kept[k] == all[all.len() - kept.len() + k]
        },
{
    let kept = b.channels@[i]@;
    if i < bufs.len() {
        the_newest_are_the_last(a.channels@[i]@ + bufs[i]@, a.cap_samples as nat);
    }
}

/// The first pair that uses a channel names it: by its index as a measurement
/// channel, alike as a reference.
pub proof fn the_first_use_names_a_channel(pairs: Seq<(u32, u32)>, c: u32, from: nat, i: nat)
    requires
        from <= i < pairs.len(),
        forall|k: int| from <= k < i ==> (#[trigger] pairs[k]).0 != c && pairs[k].1 != c,
    ensures
        pairs[i as int].0 == c ==> first_use(pairs, c, from) == Some((i, true)),
        pairs[i as int].0 != c && pairs[i as int].1 == c ==> first_use(pairs, c, from) == Some(
            (i, false),
        ),
    decreases i - from,
{
    if from < i {
        assert(pairs[from as int].0 != c);
        the_first_use_names_a_channel(pairs, c, from + 1, i);
    }
}

/// A channel that no pair uses has no role but its number.
pub proof fn an_unused_channel_is_named_by_its_number(
    chans: Seq<u32>,
    pairs: Seq<(u32, u32)>,
    pos: int,
)
    requires
        0 <= pos < chans.len(),
        forall|k: int|
            0 <= k < pairs.len() ==> (#[trigger] pairs[k]).0 != chans[pos] && pairs[k].1
                != chans[pos],
    ensures
        role_of(chans, pairs, pos) == "ch_"@ + dec(chans[pos] as nat),
{
    no_use(pairs, chans[pos], 0);
}

proof fn no_use(pairs: Seq<(u32, u32)>, c: u32, from: nat)
    requires
        forall|k: int| from <= k < pairs.len() ==> (#[trigger] pairs[k]).0 != c && pairs[k].1 != c,
    ensures
        first_use(pairs, c, from) is None,
    decreases pairs.len() - from,
{
    if from < pairs.len() {
        assert(pairs[from as int].0 != c);
        no_use(pairs, c, from + 1);
    }
}

/// The measurement channel of a pair is named after that pair where no earlier
/// pair and no earlier position uses it, and a reference channel as one; a
/// repeated channel keeps only its number.
pub proof fn roles_follow_the_pairs(
    chans: Seq<u32>,
    pairs: Seq<(u32, u32)>,
    pos: int,
    i: nat,
)
    requires
        0 <= pos < chans.len(),
        i < pairs.len(),
        forall|k: int|
            0 <= k < i ==> (#[trigger] pairs[k]).0 != chans[pos] && pairs[k].1 != chans[pos],
    ensures
        (forall|k: int| 0 <= k < pos ==> #[trigger] chans[k] != chans[pos]) && pairs[i as int].0
            == chans[pos] ==> role_of(chans, pairs, pos) == "meas_"@ + dec(i),
        (forall|k: int| 0 <= k < pos ==> #[trigger] chans[k] != chans[pos]) && pairs[i as int].0
            != chans[pos] && pairs[i as int].1 == chans[pos] ==> role_of(chans, pairs, pos)
            == "ref"@,
        (exists|k: int| 0 <= k < pos && #[trigger] chans[k] == chans[pos]) ==> role_of(
            chans,
            pairs,
            pos,
        ) == "ch_"@ + dec(chans[pos] as nat),
{
    the_first_use_names_a_channel(pairs, chans[pos], 0, i);
}

/// The description of a ring says of each channel what the session fixed for
/// it, and of each pair the delay that was estimated, or none.
pub proof fn a_description_is_of_its_ring(
    ring: &SnapshotRingState,
    meta: &SnapshotMeta,
    version: Seq<char>,
    format: u32,
    at: Seq<char>,
    i: int,
)
    requires
        ring.wf(),
        ring.described_by(meta, version, format, at),
    ensures
        meta.format_version == format,
        meta.daemon_version@ == version,
        meta.captured_at_utc@ == at,
        meta.sr == ring.sr,
        meta.nperseg == meta.sr,
        meta.channel_map.len() == ring.unique_chans.len(),
        0 <= i < meta.per_channel.len() ==> {
            let told = meta.per_channel@[i];
            &&& told.input_channel == ring.unique_chans@[i]
            &&& told.calibration == ring.unique_cals@[i]
            &&& told.role@ == meta.channel_map@[i]@
            &&& told.weighting@ == ring.weighting_tag@
            &&& told.integration@ == ring.integration_tag@
        },
        ring.unique_cals.len() == ring.unique_chans.len() ==> meta.per_channel.len()
            == ring.unique_chans.len(),
        0 <= i < ring.delay_samples.len() ==> {
            &&& ring.delay_samples@[i] matches Some(d) ==> meta.delay_samples@[i] == d
            &&& ring.delay_samples@[i] is None ==> meta.delay_samples@[i] == 0
        },
        ring.channels.len() > 0 ==> meta.ring_frames == ring.channels@[0]@.len(),
        ring.channels.len() == 0 ==> meta.ring_frames == 0,
{
    if 0 <= i < meta.per_channel.len() {
        let told = meta.per_channel@[i];
        assert(meta.channel_map@[i]@ == role_of(ring.unique_chans@, ring.pairs@, i));
    }
    if 0 <= i < ring.delay_samples.len() {
        let d = meta.delay_samples@[i];
    }
}

/// The verdict of a channel is the first that was applied to it, and a channel
/// that none was applied to has none.
pub proof fn a_verdict_is_of_its_channel(applied: Seq<(u32, String)>, channel: u32, i: int)
    ensures
        0 <= i < applied.len() && applied[i].0 == channel && (forall|k: int|
            0 <= k < i ==> (#[trigger] applied[k]).0 != channel) ==> applied_to(applied, channel)
            == Some(applied[i].1@),
        (forall|k: int| 0 <= k < applied.len() ==> (#[trigger] applied[k]).0 != channel)
            ==> applied_to(applied, channel) is None,
    decreases applied.len(),
{
    if applied.len() > 0 {
        let rest = applied.drop_first();
        a_verdict_is_of_its_channel(rest, channel, i - 1);
        if applied[0].0 != channel {
            if 0 <= i < applied.len() && applied[i].0 == channel && (forall|k: int|
                0 <= k < i ==> (#[trigger] applied[k]).0 != channel) {
                assert(rest[i - 1] == applied[i]);
                assert forall|k: int| 0 <= k < i - 1 implies (#[trigger] rest[k]).0
                    != channel by {
                    assert(applied[k + 1].0 != channel);
                }
            }
            if forall|k: int| 0 <= k < applied.len() ==> (#[trigger] applied[k]).0 != channel {
                assert forall|k: int| 0 <= k < rest.len() implies (#[trigger] rest[k]).0
                    != channel by {
                    assert(applied[k + 1].0 != channel);
                }
            }
        }
    }
}

/// A ring keeps the plan of its session: the channels, the pairs with their
/// delays, the tags and the calibrations.
pub proof fn a_plan_is_kept_whole(a: &SnapshotRingState, b: &SnapshotRingState)
    requires
        a.same_plan(b),
        a.sr == b.sr,
        a.channels == b.channels,
        a.cap_samples == b.cap_samples,
        a.pending_ring_s == b.pending_ring_s,
    ensures
        *a == *b,
{
}

} // verus!
