use std::collections::VecDeque;

use ac_daemon::calibration::Calibration;
use ac_daemon::capture::{capture_budget_samples, capture_into_ring, RingTick};
use ac_daemon::channel::{lf_band_enabled, lf_recompute_every, ChannelState, LfState, RingKind};
use ac_daemon::double::{Double, Single};
use ac_daemon::frames::TickCtx;
use ac_daemon::json::Json;
use ac_daemon::mic::mic_correction_tag;
use ac_daemon::mode::Mode;
use ac_daemon::monitor::monitor_inputs;
use ac_daemon::reconnect::ReconnectState;

const MS: u64 = 1_000_000;
const SEC: u64 = 1_000_000_000;

fn d(x: f64) -> Double {
    Double::new(x.to_bits())
}

fn block(xs: &[f32]) -> Vec<Single> {
    xs.iter().map(|x| Single { bits: x.to_bits() }).collect()
}

#[test]
fn only_the_fft_mode_takes_the_interval_sleep() {
    assert!(!Mode::Fft.paces_itself());
    for m in [Mode::Cwt, Mode::Cqt, Mode::Reassigned] {
        assert!(m.paces_itself());
    }
}

#[test]
fn unknown_tags_fall_back_to_fft() {
    assert!(Mode::from_tag("cwt") == Mode::Cwt);
    assert!(Mode::from_tag("cqt") == Mode::Cqt);
    assert!(Mode::from_tag("reassigned") == Mode::Reassigned);
    for tag in ["fft", "", "CWT", "spectrum", "reassign"] {
        assert!(
            Mode::from_tag(tag) == Mode::Fft,
            "{tag:?} should fall back to Fft"
        );
    }
}

#[test]
fn correction_tag_truth_table() {
    assert_eq!(mic_correction_tag(false, true), "none");
    assert_eq!(mic_correction_tag(false, false), "none");
    assert_eq!(mic_correction_tag(true, true), "on");
    assert_eq!(mic_correction_tag(true, false), "off");
}

fn backoff_ramps_then_caps(now: u64) {
    let mut st = ReconnectState::new();

    assert_eq!(st.backoff(), 0);
    st.note_failure(now);
    assert_eq!(st.backoff(), 0, "1st failure: no sleep yet");

    st.note_failure(now);
    assert_eq!(st.backoff(), 100, "2nd failure");
    st.note_failure(now);
    st.note_failure(now);
    assert_eq!(st.backoff(), 100, "4th failure");

    st.note_failure(now);
    assert_eq!(st.backoff(), 500, "5th failure");
    for _ in 0..4 {
        st.note_failure(now);
    }
    assert_eq!(st.backoff(), 500, "9th failure");

    st.note_failure(now);
    assert_eq!(st.backoff(), 1000, "10th failure caps at 1s");
    for _ in 0..50 {
        st.note_failure(now);
    }
    assert_eq!(st.backoff(), 1000, "stays capped");
}

fn note_success_resets_state(now: u64) {
    let mut st = ReconnectState::new();
    for _ in 0..7 {
        st.note_failure(now);
    }
    let _ = st.should_emit_error(now);
    assert!(st.first_failure_at.is_some());
    assert!(st.last_error_pub_at.is_some());

    st.note_success();
    assert_eq!(st.consecutive_failures, 0);
    assert!(st.first_failure_at.is_none());
    assert!(st.last_error_pub_at.is_none());
    assert_eq!(st.backoff(), 0);
}

fn should_emit_error_rate_limits(t0: u64) {
    let mut st = ReconnectState::new();

    st.note_failure(t0);
    assert!(st.should_emit_error(t0), "first error always emits");

    let t_half = t0 + 500 * MS;
    st.note_failure(t_half);
    assert!(!st.should_emit_error(t_half), "0.5 s later: suppressed");

    let t_2 = t0 + 1100 * MS;
    st.note_failure(t_2);
    assert!(st.should_emit_error(t_2), "1.1 s later: emit again");

    let t_3 = t_2 + 900 * MS;
    st.note_failure(t_3);
    assert!(
        !st.should_emit_error(t_3),
        "0.9 s after last emit: suppressed"
    );
}

fn should_give_up_only_after_30s_of_failures(t0: u64) {
    let mut st = ReconnectState::new();

    assert!(!st.should_give_up(t0), "no failures yet: never give up");

    st.note_failure(t0);
    assert!(!st.should_give_up(t0));
    assert!(!st.should_give_up(t0 + 29 * SEC));
    assert!(st.should_give_up(t0 + 30 * SEC));
    assert!(st.should_give_up(t0 + 60 * SEC));
}

fn first_failure_at_is_sticky_until_success(t0: u64) {
    let mut st = ReconnectState::new();
    st.note_failure(t0);
    let initial = st.first_failure_at;
    assert!(initial.is_some());

    for n in 1..5 {
        st.note_failure(t0 + n * 200 * MS);
        assert_eq!(st.first_failure_at, initial, "anchor fixed across failures");
    }

    st.note_success();
    assert!(st.first_failure_at.is_none());
}

#[test]
fn reconnect_backoff_ramps_then_caps() {
    backoff_ramps_then_caps(0);
}

#[test]
fn monitor_backoff_ramps_then_caps() {
    backoff_ramps_then_caps(17 * SEC);
}

#[test]
fn reconnect_note_success_resets_state() {
    note_success_resets_state(0);
}

#[test]
fn monitor_note_success_resets_state() {
    note_success_resets_state(17 * SEC);
}

#[test]
fn two_reports_of_an_outage_are_a_second_apart() {
    let mut st = ReconnectState::new();
    let mut reported = Vec::new();
    for tick in 0..500u64 {
        let now = tick * SEC / 7;
        st.note_failure(now);
        if st.should_emit_error(now) {
            reported.push(now);
        }
    }
    assert!(reported.len() > 60);
    for pair in reported.windows(2) {
        assert!(pair[1] - pair[0] >= SEC, "{pair:?}");
    }
}

#[test]
fn a_silent_call_does_not_prolong_the_silence() {
    let mut st = ReconnectState::new();
    st.note_failure(0);
    assert!(st.should_emit_error(0));
    assert!(!st.should_emit_error(500 * MS));
    assert!(!st.should_emit_error(999 * MS));
    st.note_failure(1_050 * MS);
    assert!(st.should_emit_error(1_100 * MS));
    assert!(!st.should_emit_error(2_000 * MS));
    assert!(st.should_emit_error(2_100 * MS));
}

#[test]
fn a_hop_count_that_is_no_number_recomputes_every_tick() {
    assert_eq!(lf_recompute_every(d(f64::NAN)), 1);
    assert_eq!(lf_recompute_every(d(-f64::NAN)), 1);
    assert_eq!(lf_recompute_every(d(f64::INFINITY)), 4096);
}

fn calibration(input_channel: u32) -> Calibration {
    Calibration {
        output_channel: 0,
        input_channel,
        vrms_at_0dbfs_out: None,
        vrms_at_0dbfs_in: None,
        ref_freq: d(1000.0),
        ref_dbfs: d(-20.0),
        mic_sensitivity_dbfs_at_94db_spl: None,
        mic_response: None,
        tau_history: vec![],
    }
}

#[test]
fn the_first_unreadable_calibration_refuses_the_monitor() {
    let error = |r: Result<Vec<Option<Calibration>>, Json>| match r {
        Err(e) => e.get("error").and_then(|v| v.as_str()).map(str::to_string),
        Ok(_) => None,
    };
    let fault = Some("no audio backend".to_string());
    let loads = vec![Ok(None), Err("cal 2 unreadable".to_string()), Err("cal 3".to_string())];
    assert_eq!(error(monitor_inputs(loads, &fault)).as_deref(), Some("cal 2 unreadable"));
    let loads = vec![Ok(None), Ok(Some(calibration(1)))];
    assert_eq!(error(monitor_inputs(loads, &fault)).as_deref(), Some("no audio backend"));
    let loads = vec![Ok(None), Ok(Some(calibration(1)))];
    let cals = monitor_inputs(loads, &None).ok().unwrap();
    assert!(cals[0].is_none());
    assert_eq!(cals[1].as_ref().map(|c| c.input_channel), Some(1));
}

#[test]
fn reconnect_should_emit_error_rate_limits() {
    should_emit_error_rate_limits(0);
}

#[test]
fn monitor_should_emit_error_rate_limits() {
    should_emit_error_rate_limits(17 * SEC);
}

#[test]
fn reconnect_should_give_up_only_after_30s_of_failures() {
    should_give_up_only_after_30s_of_failures(0);
}

#[test]
fn monitor_should_give_up_only_after_30s_of_failures() {
    should_give_up_only_after_30s_of_failures(17 * SEC);
}

#[test]
fn reconnect_first_failure_at_is_sticky_until_success() {
    first_failure_at_is_sticky_until_success(0);
}

#[test]
fn monitor_first_failure_at_is_sticky_until_success() {
    first_failure_at_is_sticky_until_success(17 * SEC);
}

fn budget_never_drains_slower_than_the_ring_fills() {
    for sr in [44_100u32, 48_000, 88_200, 96_000, 176_400, 192_000] {
        for interval in [0.002f64, 0.01, 0.05, 0.1, 0.2, 0.5, 1.0] {
            for n_ch in [1usize, 2, 4, 8] {
                let per_ch = (interval / n_ch as f64).max(0.002);
                let arriving = (per_ch * sr as f64) as u64;
                let budget = capture_budget_samples(d(per_ch), sr);
                assert!(
                    budget >= arriving,
                    "sr={sr} interval={interval} n_ch={n_ch}: drains {budget} but {arriving} arrive"
                );
            }
        }
    }
}

fn default_monitor_config_keeps_up_at_both_rig_rates() {
    assert_eq!(capture_budget_samples(d(0.2), 96_000), 19_200);
    assert_eq!(capture_budget_samples(d(0.2), 48_000), 9_600);
}

fn short_interval_keeps_the_floor() {
    assert_eq!(capture_budget_samples(d(0.002), 44_100), 128);
    assert!(capture_budget_samples(d(0.0), 96_000) >= 128);
}

#[test]
fn monitor_budget_never_drains_slower_than_the_ring_fills() {
    budget_never_drains_slower_than_the_ring_fills();
}

#[test]
fn capture_budget_never_drains_slower_than_the_ring_fills() {
    budget_never_drains_slower_than_the_ring_fills();
}

#[test]
fn monitor_default_monitor_config_keeps_up_at_both_rig_rates() {
    default_monitor_config_keeps_up_at_both_rig_rates();
}

#[test]
fn capture_default_monitor_config_keeps_up_at_both_rig_rates() {
    default_monitor_config_keeps_up_at_both_rig_rates();
}

#[test]
fn monitor_short_interval_keeps_the_floor() {
    short_interval_keeps_the_floor();
}

#[test]
fn capture_short_interval_keeps_the_floor() {
    short_interval_keeps_the_floor();
}

const LF_OVERLAP: f64 = 0.9;

fn every(lf_fft_n: u32, sr: u32, interval: f64) -> u32 {
    let hop_s = lf_fft_n as f64 * (1.0 - LF_OVERLAP) / sr as f64;
    lf_recompute_every(d(hop_s / interval.max(1e-6)))
}

#[test]
fn recompute_cadence_is_never_zero() {
    for sr in [44_100u32, 48_000, 88_200, 96_000, 176_400, 192_000] {
        for lf_fft_n in [8192u32, 16_384, 32_768, 65_536, 131_072] {
            for interval in [0.002f64, 0.016, 0.05, 0.2, 1.0, 60.0] {
                let n = every(lf_fft_n, sr, interval);
                assert!(
                    n >= 1,
                    "sr={sr} lf_fft_n={lf_fft_n} interval={interval} gave {n}"
                );
                assert!(n <= 4096);
            }
        }
    }
}

#[test]
fn a_zero_interval_still_yields_a_usable_cadence() {
    let n = every(65_536, 48_000, 0.0);
    assert!((1..=4096).contains(&n));
}

#[test]
fn default_cadence_matches_the_overlap_hop() {
    let hop_s = 65_536.0 * (1.0 - LF_OVERLAP) / 48_000.0;
    assert!((0.130..0.140).contains(&hop_s), "hop drifted: {hop_s}");
    assert_eq!(every(65_536, 48_000, 0.2), 1);
    assert_eq!(every(65_536, 48_000, 0.016), 9);
}

#[test]
fn the_band_is_off_unless_its_fft_is_strictly_longer() {
    assert!(lf_band_enabled(65_536, 8192));
    assert!(!lf_band_enabled(8192, 8192));
    assert!(!lf_band_enabled(8192, 65_536));
}

#[test]
fn the_ema_rebuilds_only_when_the_bin_count_changes() {
    let mut lf = LfState::new();
    assert!(lf.ensure_ema(129), "first call must build");
    assert!(!lf.ensure_ema(129), "same bin count must reuse");
    lf.ema_last_ts = Some(5 * SEC);
    assert!(lf.ensure_ema(257), "changed bin count must rebuild");
    assert!(
        lf.ema_last_ts.is_none(),
        "a rebuild must drop the stale timestamp"
    );
}

/// One tick of the LF band: where a recompute is due, a column is made.
fn lf_tick(lf: &mut LfState, chunk: &Vec<Single>, n: u32, every: u32, now: u64) {
    if lf.push_and_maybe_recompute(chunk, n, every) {
        let bins = n as usize / 2 + 1;
        let _ = lf.begin_update(bins, now);
        lf.finish_update(vec![d(0.0); bins]);
    }
}

#[test]
fn no_spectrum_is_cached_until_the_ring_fills() {
    let n = 256u32;
    let mut lf = LfState::new();
    let chunk = block(&[0.5f32; 64]);
    for _ in 0..3 {
        lf_tick(&mut lf, &chunk, n, 1, SEC);
        assert!(lf.spec_cache.is_none(), "cached from a partial ring");
    }
    lf_tick(&mut lf, &chunk, n, 1, SEC);
    assert!(lf.spec_cache.is_some(), "a full ring must produce a column");
}

#[test]
fn the_cadence_counter_paces_recomputes() {
    let n = 256u32;
    let mut lf = LfState::new();
    let chunk = block(&[0.25f32; 256]);
    lf_tick(&mut lf, &chunk, n, 3, SEC);
    assert_eq!(lf.ticks_since_recompute, 0, "first full ring recomputes");
    for expected in 1..=3 {
        lf_tick(&mut lf, &chunk, n, 3, SEC);
        assert_eq!(lf.ticks_since_recompute, expected);
    }
    lf_tick(&mut lf, &chunk, n, 3, SEC);
    assert_eq!(lf.ticks_since_recompute, 0, "counter reaching 3 recomputes");
}

#[test]
fn a_cadence_of_one_recomputes_on_every_tick() {
    let n = 256u32;
    let mut lf = LfState::new();
    let chunk = block(&[0.25f32; 64]);
    for _ in 0..3 {
        assert!(!lf.push_and_maybe_recompute(&chunk, n, 1), "the ring is not full yet");
    }
    for tick in 0..10u64 {
        lf.spec_cache = None;
        lf_tick(&mut lf, &chunk, n, 1, tick * SEC);
        assert!(lf.spec_cache.is_some(), "tick {tick} must recompute");
        assert_eq!(lf.ticks_since_recompute, 0);
    }
}

#[test]
fn clearing_drops_all_five_pieces_of_state() {
    let n = 256u32;
    let mut lf = LfState::new();
    lf_tick(&mut lf, &block(&[0.1f32; 256]), n, 1, SEC);
    assert!(lf.is_stale(), "a fed band holds state");
    lf.clear();
    assert!(!lf.is_stale());
    assert!(lf.ring.is_empty());
    assert!(lf.spec_cache.is_none());
    assert!(lf.ema_bins.is_none());
    assert!(lf.ema_last_ts.is_none());
    assert_eq!(lf.ticks_since_recompute, u32::MAX);
}

const SR: u32 = 96_000;
const TONE_HZ: f64 = 15_100.0;
const AMPLITUDE: f64 = 0.5;
const TICK_SECS: f64 = 0.016;

fn annihilate(x: &[f64], omega: f64) -> Vec<f64> {
    let k = 2.0 * omega.cos();
    x.windows(3).map(|w| w[2] + w[0] - k * w[1]).collect()
}

fn max_recurrence_residual(ring: &VecDeque<Single>, omega: f64) -> f64 {
    let x: Vec<f64> = ring
        .iter()
        .map(|s| f32::from_bits(s.bits) as f64)
        .collect();
    annihilate(&annihilate(&x, omega), 2.0 * omega)
        .into_iter()
        .map(f64::abs)
        .fold(0.0, f64::max)
}

/// A contiguous stream: a tone with a second harmonic of one percent.
fn tone(from: usize, n: usize, omega: f64) -> Vec<Single> {
    (from..from + n)
        .map(|i| {
            let t = omega * i as f64;
            let x = AMPLITUDE * (t.sin() + 0.01 * (2.0 * t).sin());
            Single {
                bits: (x as f32).to_bits(),
            }
        })
        .collect()
}

#[test]
fn ring_modes_receive_contiguous_audio() {
    let omega = 2.0 * std::f64::consts::PI * TONE_HZ / SR as f64;
    let bound = 1e-4 * AMPLITUDE;
    let ctx = TickCtx {
        n_channels: 1,
        sr: SR,
        backend: "fake".to_string(),
        frame_idx: 0,
        tick_ts_ns: 0,
        mic_corr_enabled: false,
        tick_secs: d(TICK_SECS),
    };
    for (label, kind, cap) in [
        ("cwt", RingKind::Cwt, (SR as f64 * 0.15).ceil() as usize),
        ("cqt", RingKind::Cqt, SR as usize),
        ("reassigned", RingKind::Reassigned, 4096),
    ] {
        let mut ch = ChannelState::new(0, "fake:in".into(), None, None, false, d(TONE_HZ));
        let per_tick = (TICK_SECS * SR as f64) as usize;
        let ticks = cap.div_ceil(per_tick) + 4;
        for t in 0..ticks {
            let samples = tone(t * per_tick, per_tick, omega);
            let (tick, _) = capture_into_ring(&mut ch, &ctx, kind, Ok(samples), 0, cap, 0);
            assert!(!matches!(tick, RingTick::Failed { .. }), "capture failed");
        }
        let ring = match kind {
            RingKind::Cwt => &ch.cwt_ring,
            RingKind::Cqt => &ch.cqt_ring,
            RingKind::Reassigned => &ch.reass_ring,
        };
        assert_eq!(ring.len(), cap, "{label}: ring must be full");
        let residual = max_recurrence_residual(ring, omega);
        assert!(
            residual < bound,
            "{label}: residual {residual:.3e}: the ring is not contiguous"
        );
    }
}

#[test]
fn a_failed_capture_ends_the_worker_and_keeps_the_ring() {
    let ctx = TickCtx {
        n_channels: 1,
        sr: SR,
        backend: "fake".to_string(),
        frame_idx: 0,
        tick_ts_ns: 0,
        mic_corr_enabled: false,
        tick_secs: d(TICK_SECS),
    };
    let mut ch = ChannelState::new(3, "in".into(), None, None, false, d(TONE_HZ));
    let (first, scope) =
        capture_into_ring(&mut ch, &ctx, RingKind::Cqt, Ok(block(&[1.0, 2.0])), 7, 8, 3);
    assert!(matches!(first, RingTick::NotReady));
    assert!(scope.is_some());
    let (second, none) =
        capture_into_ring(&mut ch, &ctx, RingKind::Cqt, Err("gone".into()), 7, 8, 3);
    assert!(none.is_none());
    match second {
        RingTick::Failed { frame } => assert_eq!(
            frame.get("message").and_then(|m| m.as_str()),
            Some("capture error on ch3: gone")
        ),
        _ => panic!("expected a failure"),
    }
    assert_eq!(ch.cqt_ring.len(), 2);
    let (third, _) =
        capture_into_ring(&mut ch, &ctx, RingKind::Cqt, Ok(block(&[3.0])), 9, 8, 3);
    assert!(matches!(third, RingTick::Ready { xruns: 9 }));
}
