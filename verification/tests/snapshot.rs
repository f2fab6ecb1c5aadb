use std::collections::VecDeque;

use ac_daemon::base64::base64_encode;
use ac_daemon::double::{Double, Single};
use ac_daemon::snapshot::{
    check_ring_bytes, format_mb, ring_cap_samples, RingSeconds, RingTooLarge, SnapshotRingState,
    MAX_SNAPSHOT_RING_BYTES, MAX_SNAPSHOT_RING_S, RING_BYTES_PER_SAMPLE,
};
use ac_daemon::wire::Problem;

fn d(x: f64) -> Double {
    Double::new(x.to_bits())
}

fn block(xs: &[f32]) -> Vec<Single> {
    xs.iter().map(|x| Single { bits: x.to_bits() }).collect()
}

fn floats(ring: &VecDeque<Single>) -> Vec<f32> {
    ring.iter().map(|s| f32::from_bits(s.bits)).collect()
}

fn seconds(x: f64) -> RingSeconds {
    RingSeconds::new(d(x)).unwrap()
}

#[test]
fn base64_round_trips_via_standard_decoder_shape() {
    assert_eq!(base64_encode(b""), "");
    assert_eq!(base64_encode(b"f"), "Zg==");
    assert_eq!(base64_encode(b"fo"), "Zm8=");
    assert_eq!(base64_encode(b"foo"), "Zm9v");
    assert_eq!(base64_encode(b"foob"), "Zm9vYg==");
    assert_eq!(base64_encode(b"fooba"), "Zm9vYmE=");
    assert_eq!(base64_encode(b"foobar"), "Zm9vYmFy");
}

#[test]
fn base64_covers_the_whole_alphabet() {
    assert_eq!(base64_encode(&[0xFB, 0xEF, 0xFF]), "++//");
    assert_eq!(base64_encode(&[0x00, 0x10, 0x83]), "ABCD");
}

#[test]
fn base64_of_whole_groups_is_split_anywhere() {
    let data: Vec<u8> = (0..64u32).map(|i| (i * 37 % 256) as u8).collect();
    for n in 0..data.len() {
        let text = base64_encode(&data[..n]);
        let padding = (3 - n % 3) % 3;
        assert_eq!(text.len(), 4 * n.div_ceil(3));
        assert_eq!(text.trim_end_matches('=').len(), text.len() - padding);
        assert!(!text.trim_end_matches('=').contains('='));
        let cut = n - n % 3;
        let (head, tail) = data[..n].split_at(cut / 2 - cut / 2 % 3);
        assert_eq!(text, format!("{}{}", base64_encode(head), base64_encode(tail)));
    }
}

#[test]
fn ring_push_tick_caps_at_configured_length() {
    let mut ring = SnapshotRingState::new(
        48_000,
        vec![0, 1],
        10,
        vec![(0, 1)],
        "Z".to_string(),
        "fast".to_string(),
        vec![None, None],
    );
    for _ in 0..5 {
        ring.push_tick(&vec![block(&[1.0; 4]), block(&[2.0; 4])]);
    }
    assert_eq!(ring.channels[0].len(), 10, "ring must cap at 10 samples");
    assert_eq!(ring.channels[1].len(), 10);
}

#[test]
fn snapshot_before_first_delay_sync_has_one_delay_per_pair() {
    let mut ring = SnapshotRingState::new(
        48_000,
        vec![0, 1, 2],
        1_000,
        vec![(0, 1), (0, 2)],
        "Z".to_string(),
        "fast".to_string(),
        vec![None, None, None],
    );
    ring.push_tick(&vec![
        block(&[0.1; 64]),
        block(&[0.2; 64]),
        block(&[0.3; 64]),
    ]);
    let (meta, channels) = ring
        .snapshot_meta_and_channels("test", 1)
        .expect("a ring built with `new` is started");
    assert_eq!(
        meta.delay_samples.len(),
        meta.pairs.len(),
        "delay_samples must have one entry per pair before the first sync"
    );
    assert_eq!(channels.len(), 3);
    assert_eq!(meta.ring_frames, 64);
    assert!(!meta.captured_at_utc.is_empty());
}

#[test]
fn roles_come_from_the_first_occurrence() {
    let ring = SnapshotRingState::new(
        48_000,
        vec![0, 1, 2, 7],
        4,
        vec![(0, 1), (1, 2)],
        "Z".to_string(),
        "fast".to_string(),
        vec![None, Some(3), None, None],
    );
    let (meta, _) = ring
        .snapshot_meta_at("1.0", 3, "2026-01-01T00:00:00+00:00".to_string())
        .unwrap();
    assert_eq!(meta.channel_map, ["meas_0", "ref", "ref", "ch_7"]);
    assert_eq!(meta.per_channel[1].calibration, Some(3));
    assert_eq!(meta.captured_at_utc, "2026-01-01T00:00:00+00:00");
    assert_eq!((meta.format_version, meta.daemon_version.as_str()), (3, "1.0"));
    assert!(meta.per_channel.iter().all(|c| c.stream_sha256.is_none()));
}

#[test]
fn pending_ring_yields_no_snapshot_until_started() {
    let mut ring = SnapshotRingState::pending(
        seconds(0.5),
        vec![0, 1],
        vec![(0, 1)],
        "Z".to_string(),
        "fast".to_string(),
        vec![None, None],
    );
    assert!(!ring.is_started());
    ring.push_tick(&vec![block(&[0.1; 8]), block(&[0.2; 8])]);
    assert!(ring.snapshot_meta_and_channels("test", 1).is_none());

    ring.start(100).expect("a 50-sample ring fits the ceiling");
    assert!(ring.is_started());
    for _ in 0..20 {
        ring.push_tick(&vec![block(&[0.1; 8]), block(&[0.2; 8])]);
    }
    assert_eq!(ring.channels[0].len(), 50, "cap must be ring_s × sr");
    let (meta, channels) = ring
        .snapshot_meta_and_channels("test", 1)
        .expect("a started ring yields a snapshot");
    assert_eq!(meta.sr, 100);
    assert_eq!(channels[0].len(), 50);
}

#[test]
fn ring_seconds_bounds() {
    let max = f64::from(MAX_SNAPSHOT_RING_S);
    assert_eq!(RingSeconds::new(d(max)).map(RingSeconds::get), Ok(d(max)));
    assert_eq!(RingSeconds::new(d(30.0)).map(RingSeconds::get), Ok(d(30.0)));
    let at_most = Problem::AtMost {
        limit: MAX_SNAPSHOT_RING_S,
        unit: "s",
    };
    for x in [max + 0.001, 1e6, 1e300, f64::MAX] {
        assert_eq!(RingSeconds::new(d(x)), Err(at_most.clone()), "{x}");
    }
    for x in [0.0, -1.0, f64::NAN, f64::INFINITY, f64::NEG_INFINITY] {
        assert_eq!(RingSeconds::new(d(x)), Err(Problem::NotPositive), "{x}");
    }
}

#[test]
fn ring_cap_samples_at_ceiling_and_max_rate() {
    let ceiling = seconds(f64::from(MAX_SNAPSHOT_RING_S));
    let got = ring_cap_samples(ceiling, u32::MAX);
    assert_eq!(got, u64::from(MAX_SNAPSHOT_RING_S) * u64::from(u32::MAX));
    assert_eq!(ring_cap_samples(seconds(0.5), 100), 50);
    assert_eq!(
        ring_cap_samples(ceiling, 192_000),
        u64::from(MAX_SNAPSHOT_RING_S) * 192_000
    );
}

#[test]
fn ring_caps_agree_with_hardware_arithmetic() {
    for x in [0.37, 0.1, 289.3519, 1e-9, 5e-324, 12.000001, 299.99999999999994] {
        for sr in [0u32, 1, 100, 44_100, 48_000, 192_000, u32::MAX] {
            let want = (x * f64::from(sr)).round() as u64;
            assert_eq!(ring_cap_samples(seconds(x), sr), want, "{x} s at {sr} Hz");
        }
    }
}

#[test]
fn ring_wraparound_keeps_newest_samples_in_order() {
    let cap = 20;
    let mut ring = SnapshotRingState::new(
        48_000,
        vec![0],
        cap,
        vec![(0, 0)],
        "Z".to_string(),
        "fast".to_string(),
        vec![None],
    );
    let total = 100;
    let mut pushed = 0usize;
    while pushed < total {
        let tick_len = 7.min(total - pushed);
        let tick: Vec<f32> = (pushed..pushed + tick_len).map(|v| v as f32).collect();
        ring.push_tick(&vec![block(&tick)]);
        pushed += tick_len;
    }
    let got = floats(&ring.channels[0]);
    let expected: Vec<f32> = ((total - cap)..total).map(|v| v as f32).collect();
    assert_eq!(
        got, expected,
        "ring must hold exactly the newest {cap} samples, in order"
    );
}

/// Extend first, then pop down to the cap: what the rings must not do to
/// their allocation.
fn rejected_push_tick(ring: &mut VecDeque<Single>, buf: &[Single], cap: usize) {
    ring.extend(buf.iter().copied());
    while ring.len() > cap {
        ring.pop_front();
    }
}

fn ticks(cap: usize) -> Vec<Vec<f32>> {
    let total = 3 * cap;
    (0..total)
        .step_by(4099)
        .map(|start| {
            (start..(start + 4099).min(total))
                .map(|v| v as f32)
                .collect()
        })
        .collect()
}

#[test]
fn ring_footprint_measured_at_48k_and_192k() {
    let ring_s = seconds(1.0);
    for sr in [48_000u32, 192_000] {
        let mut ring = SnapshotRingState::pending(
            ring_s,
            vec![0, 1],
            vec![(0, 1)],
            "Z".to_string(),
            "fast".to_string(),
            vec![None, None],
        );
        ring.start(sr).expect("a 1 s ring fits the ceiling");
        let cap = ring_cap_samples(ring_s, sr) as usize;
        let reserved = ring.channels[0].capacity();

        let mut rejected: VecDeque<Single> = VecDeque::new();
        rejected.reserve(cap);
        for t in ticks(cap) {
            let b = block(&t);
            ring.push_tick(&vec![b.clone(), b.clone()]);
            rejected_push_tick(&mut rejected, &b, cap);
        }

        let size = std::mem::size_of::<Single>();
        for ch in &ring.channels {
            assert_eq!(ch.len(), cap);
            assert_eq!(
                ch.capacity(),
                reserved,
                "the ring must not grow past what start reserved"
            );
        }
        assert_eq!(
            (reserved * size) as u128,
            cap as u128 * RING_BYTES_PER_SAMPLE,
            "RING_BYTES_PER_SAMPLE must match the measured allocation"
        );
        assert!(
            rejected.capacity() > cap,
            "the rejected order is expected to grow past the cap"
        );
        assert_eq!(
            ring.channels[0].iter().copied().collect::<Vec<_>>(),
            rejected.iter().copied().collect::<Vec<_>>(),
            "both orders keep the same samples"
        );
    }
}

#[test]
fn start_reserves_exactly_the_checked_bytes() {
    let ring_s = seconds(0.37);
    let chans = vec![0, 3, 5];
    let mut ring = SnapshotRingState::pending(
        ring_s,
        chans.clone(),
        vec![(0, 3), (5, 3)],
        "Z".to_string(),
        "fast".to_string(),
        vec![None, None, None],
    );
    let checked = check_ring_bytes(chans.len(), ring_s, 96_000).unwrap();
    ring.start(96_000).unwrap();
    let reserved: u128 = ring
        .channels
        .iter()
        .map(|c| (c.capacity() * std::mem::size_of::<Single>()) as u128)
        .sum();
    assert_eq!(reserved, checked);
}

#[test]
fn oversized_tick_keeps_newest_cap_samples() {
    let mut ring = SnapshotRingState::pending(
        seconds(0.1),
        vec![0],
        vec![(0, 0)],
        "Z".to_string(),
        "fast".to_string(),
        vec![None],
    );
    ring.start(100).unwrap();
    let reserved = ring.channels[0].capacity();
    ring.push_tick(&vec![block(&[-1.0; 4])]);
    let big: Vec<f32> = (0..25).map(|v| v as f32).collect();
    ring.push_tick(&vec![block(&big)]);
    let got = floats(&ring.channels[0]);
    assert_eq!(got, (15..25).map(|v| v as f32).collect::<Vec<_>>());
    assert_eq!(ring.channels[0].capacity(), reserved);
}

#[test]
fn start_over_ceiling_allocates_nothing() {
    let ring_s = seconds(289.3519);
    let mut ring = SnapshotRingState::pending(
        ring_s,
        (0..18).collect(),
        vec![(0, 1)],
        "Z".to_string(),
        "fast".to_string(),
        vec![None; 18],
    );
    let err = ring.start(48_000).unwrap_err();
    assert_eq!(err.needs_bytes, 1_000_000_152);
    assert_eq!((err.channels, err.sr), (18, 48_000));
    assert!(!ring.is_started(), "a refused ring stays pending");
    for ch in &ring.channels {
        assert_eq!(ch.capacity(), 0, "refused before allocation");
    }
    ring.push_tick(&vec![block(&[0.5; 64]); 18]);
    assert_eq!(ring.channels[0].capacity(), 0, "a pending ring never grows");
}

#[test]
fn ceiling_accepts_exactly_the_limit_and_refuses_one_sample_more() {
    // 20 ch × 12 500 000 samples × 4 B = 10⁹ B.
    let at = seconds(12_500_000.0 / 48_000.0);
    assert_eq!(ring_cap_samples(at, 48_000), 12_500_000);
    assert_eq!(
        check_ring_bytes(20, at, 48_000),
        Ok(u128::from(MAX_SNAPSHOT_RING_BYTES))
    );
    let over = seconds(12_500_001.0 / 48_000.0);
    assert_eq!(ring_cap_samples(over, 48_000), 12_500_001);
    let err = check_ring_bytes(20, over, 48_000).unwrap_err();
    assert_eq!(err.needs_bytes, 1_000_000_080);
}

#[test]
fn ring_refusal_text_matches_ux() {
    let refuse = |channels: usize, ring_s: f64, sr: u32| {
        let e: RingTooLarge = check_ring_bytes(channels, seconds(ring_s), sr).unwrap_err();
        (e, format!("{ring_s}"))
    };
    let (e, s) = refuse(18, 289.3519, 48_000);
    assert_eq!(
        e.refusal("transfer not started", &s),
        "transfer not started \u{2014} snapshot ring exceeds the memory ceiling\n\
         \x20        needs            1000.000152 MB\n\
         \x20        ceiling          1000.000000 MB\n\
         \x20        channels         18\n\
         \x20        snapshot_ring_s  289.3519 s\n\
         \x20        rate             48000 Hz\n\
         \x20        source           config.json"
    );
    let (e, s) = refuse(6, 300.0, 192_000);
    assert_eq!(
        e.refusal("transfer stopped", &s),
        "transfer stopped \u{2014} snapshot ring exceeds the memory ceiling\n\
         \x20        needs            1382.400000 MB\n\
         \x20        ceiling          1000.000000 MB\n\
         \x20        channels         6\n\
         \x20        snapshot_ring_s  300 s\n\
         \x20        rate             192000 Hz\n\
         \x20        source           config.json"
    );
    let (e, s) = refuse(64, 300.0, 192_000);
    let widest = e.refusal("transfer not started", &s);
    assert_eq!(
        widest,
        "transfer not started \u{2014} snapshot ring exceeds the memory ceiling\n\
         \x20        needs            14745.600000 MB\n\
         \x20        ceiling           1000.000000 MB\n\
         \x20        channels         64\n\
         \x20        snapshot_ring_s  300 s\n\
         \x20        rate             192000 Hz\n\
         \x20        source           config.json"
    );
    for line in widest.lines() {
        assert!(line.chars().count() <= 80, "{line}");
    }
}

#[test]
fn megabytes_print_to_the_byte() {
    assert_eq!(format_mb(0), "0.000000");
    assert_eq!(format_mb(1_000_000_001), "1000.000001");
    assert_eq!(format_mb(u128::MAX), "340282366920938463463374607431768.211455");
}
