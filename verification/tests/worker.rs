use ac_daemon::capture::{budget_secs, transform_log_due};
use ac_daemon::channel::{ChannelState, FftStep};
use ac_daemon::config::Config;
use ac_daemon::double::{Double, Single};
use ac_daemon::frames::{octave_frame, octave_leq_frame, ring_frames, spectrum_frame};
use ac_daemon::frames::{Loudness, Peak, TickCtx, Tone};
use ac_daemon::gate::configured_loopback;
use ac_daemon::json::Json;
use ac_daemon::mode::Mode;
use ac_daemon::monitor::{
    begin_tick, monitor_done, reconnect_step, sleeps_to_interval, MonitorWorker, ReconnectAction,
};
use ac_daemon::ports::{cached_capture_ports, PortCache};
use ac_daemon::report::{ir_done_frame, plot_report_frame, report_frame};
use ac_daemon::selftest::no_routing_message;
use ac_daemon::session::{
    done_frame, latest_tau_entry, session_started, stopped_frame, tau_not_measured_reason,
    JudgedRecord, SessionPlan,
};
use ac_daemon::settings::{Integration, MonitorParams, Settings, Weighting};
use ac_daemon::snapshot::{fill_voltage_checks, SnapshotRingState};
use ac_daemon::spool::{fetch_failed, snapshot, FetchStep};
use ac_daemon::tau::{tau_result, TauAttempt, TauConditions, TauEntry};
use ac_daemon::verdicts::{
    dmm_freqs, dut_freq_response, dut_noise_floor, dut_thd_levels, hw_dmm_freq_response,
    response_freqs, thd_levels, tracking_levels, FreqReading, ResponseReading,
};

fn d(x: f64) -> Double {
    Double::new(x.to_bits())
}

fn show(j: &Json) -> String {
    match j {
        Json::Null => "null".to_string(),
        Json::Bool(b) => format!("{b}"),
        Json::Uint(n) => format!("{n}"),
        Json::Int(n) => format!("{n}"),
        Json::Decimal { text, .. } => text.clone(),
        Json::Float(x) => format!("{}", f64::from_bits(x.bits)),
        Json::Float32(x) => format!("{}", f32::from_bits(x.bits)),
        Json::Str(s) => format!("{s:?}"),
        Json::Arr(a) => format!("[{}]", a.iter().map(show).collect::<Vec<_>>().join(",")),
        Json::Obj(o) => format!(
            "{{{}}}",
            o.iter()
                .map(|(k, v)| format!("{k:?}:{}", show(v)))
                .collect::<Vec<_>>()
                .join(",")
        ),
    }
}

const SEC: u64 = 1_000_000_000;

fn single(x: f32) -> Single {
    Single { bits: x.to_bits() }
}

fn settings() -> Settings {
    Settings {
        mode: Mode::Cqt,
        cwt_sigma: single(12.0),
        cwt_n_scales: 512,
        ioct_bpo: None,
        weighting: Weighting::Off,
        integration: Integration::Slow,
        leq_reset_request: true,
        loudness_reset_request: true,
        mic_correction_enabled: true,
        monitor: MonitorParams {
            interval: d(0.2),
            fft_n: 8192,
            lf_fft_n: 65536,
            crossover_hz: single(500.0),
            active: true,
        },
    }
}

fn channel() -> ChannelState {
    ChannelState::new(2, "in".to_string(), Some(d(94.0)), Some(d(2.0)), true, d(1000.0))
}

fn ctx() -> TickCtx {
    TickCtx {
        n_channels: 1,
        sr: 48_000,
        backend: "fake".to_string(),
        frame_idx: 3,
        tick_ts_ns: 9,
        mic_corr_enabled: true,
        tick_secs: d(0.1),
    }
}

#[test]
fn a_tick_reads_the_settings_once_and_consumes_resets() {
    let mut s = settings();
    let mut ch = channel();
    ch.last_frac_ts = Some(5);
    let mut w = MonitorWorker {
        frame_idx: 6,
        integration: Integration::Slow,
        channels: vec![ch],
    };
    let t = begin_tick(&mut w, &mut s, d(0.5));
    assert_eq!((t.frame_idx, t.lf_every, t.lf_enabled), (7, 1, true));
    assert_eq!(t.tick_secs, d(0.1), "the interval is cut to 100 ms");
    assert!(t.reset_loudness && !t.drop_integrators);
    assert!(!t.restart_integrators, "a slow integrator is no Leq integrator");
    assert!(!s.leq_reset_request && !s.loudness_reset_request);
    assert!(w.channels[0].last_frac_ts.is_none());

    w.channels[0].integrator_step(Integration::Slow, 10, SEC);
    s.integration = Integration::Fast;
    let t = begin_tick(&mut w, &mut s, d(0.5));
    assert!(t.drop_integrators && !t.restart_integrators);
    assert!(w.channels[0].integrator.is_none(), "the mode changed");
    assert_eq!(w.integration, Integration::Fast);

    s.integration = Integration::Leq;
    s.leq_reset_request = true;
    let t = begin_tick(&mut w, &mut s, d(0.5));
    assert!(t.drop_integrators && !t.restart_integrators, "dropped, so nothing restarts");
    w.channels[0].integrator_step(Integration::Leq, 10, SEC);
    s.leq_reset_request = true;
    let t = begin_tick(&mut w, &mut s, d(0.5));
    assert!(!t.drop_integrators && t.restart_integrators);
    assert!(w.channels[0].integrator.is_some() && w.channels[0].last_frac_ts.is_none());
}

#[test]
fn the_integrator_is_made_anew_for_other_bands() {
    let mut ch = channel();
    assert!(ch.integrator_step(Integration::Off, 10, SEC).is_none());
    let a = ch.integrator_step(Integration::Fast, 10, SEC).unwrap();
    assert!(a.fresh && a.elapsed.is_none());
    let b = ch.integrator_step(Integration::Fast, 10, 3 * SEC).unwrap();
    assert!(!b.fresh);
    assert_eq!(b.elapsed, Some(2 * SEC));
    let c = ch.integrator_step(Integration::Fast, 30, 4 * SEC).unwrap();
    assert!(c.fresh && c.elapsed.is_none());
}

#[test]
fn the_fft_path_waits_and_then_feeds_the_lf_band() {
    let mut ch = channel();
    let short = vec![single(0.5); 16];
    assert_eq!(ch.fft_step(&short, 256, true, 512, 1), FftStep::Wait);
    assert!(ch.lf.ring.is_empty());
    let block = vec![single(0.5); 512];
    assert_eq!(
        ch.fft_step(&block, 256, true, 512, 1),
        FftStep::Analyse { recompute_lf: true }
    );
    assert_eq!((ch.fft_ring.len(), ch.lf.ring.len()), (256, 512));
    assert_eq!(
        ch.fft_step(&block, 256, false, 512, 1),
        FftStep::Analyse { recompute_lf: false }
    );
    assert!(ch.lf.ring.is_empty(), "a disabled band drops what it holds");
}

#[test]
fn reconnects_are_retried_reported_and_given_up() {
    let mut ch = channel();
    let lost: Result<(), String> = Err("gone".to_string());
    match reconnect_step(&mut ch, &lost, SEC) {
        ReconnectAction::Retry { frame, sleep_ms } => {
            assert_eq!(
                show(&frame.unwrap()),
                "{\"cmd\":\"monitor_spectrum\",\"message\":\"reconnect ch2 (failures: 1): gone\"}"
            );
            assert_eq!(sleep_ms, 0);
        }
        _ => panic!("expected a retry"),
    }
    match reconnect_step(&mut ch, &lost, SEC + 1) {
        ReconnectAction::Retry { frame, sleep_ms } => {
            assert!(frame.is_none());
            assert_eq!(sleep_ms, 100);
        }
        _ => panic!("expected a retry"),
    }
    match reconnect_step(&mut ch, &lost, 31 * SEC) {
        ReconnectAction::GiveUp { frame } => assert_eq!(
            frame.get("message").and_then(|m| m.as_str()),
            Some("ch2 gave up after 30s of reconnect failures: gone")
        ),
        _ => panic!("expected to give up"),
    }
    assert!(matches!(
        reconnect_step(&mut ch, &Ok(()), 32 * SEC),
        ReconnectAction::Proceed
    ));
    assert_eq!(ch.reconnect.consecutive_failures, 0);
}

#[test]
fn only_a_short_fft_tick_sleeps() {
    assert!(sleeps_to_interval(Mode::Fft, d(0.1), d(0.2)));
    assert!(!sleeps_to_interval(Mode::Fft, d(0.2), d(0.2)));
    assert!(!sleeps_to_interval(Mode::Cwt, d(0.1), d(0.2)));
    assert_eq!(budget_secs(d(0.05)), d(0.05));
    assert_eq!(budget_secs(d(0.0001)), d(0.002));
    let mut s = settings();
    assert_eq!(
        show(&monitor_done(&mut s, "jack")),
        "{\"cmd\":\"monitor_spectrum\",\"backend\":\"jack\"}"
    );
    assert!(!s.monitor.active);
    let mut n = 0u32;
    let due: Vec<u32> = (1..=120).filter(|_| transform_log_due(&mut n)).collect();
    assert_eq!(due, vec![1, 51, 101]);
}

#[test]
fn frames_share_a_head_and_null_what_is_not_finite() {
    let loud = Loudness {
        momentary: d(-23.0),
        short_term: d(f64::NEG_INFINITY),
        integrated: d(-24.0),
        range: d(3.0),
        true_peak: d(-1.0),
        gated_duration_s: d(10.0),
    };
    let (column, loudness) = ring_frames(
        &channel(),
        &ctx(),
        "visualize/cqt",
        &vec![single(100.0)],
        &vec![single(f32::NAN)],
        Some(24),
        loud,
        11,
        2,
    );
    assert_eq!(
        show(&column),
        "{\"type\":\"visualize/cqt\",\"cmd\":\"monitor_spectrum\",\"channel\":2,\
         \"n_channels\":1,\"sr\":48000,\"magnitudes\":[null],\"frequencies\":[100],\
         \"spl_offset_db\":94,\"mic_correction\":\"on\",\"timestamp\":11,\"xruns\":2,\"bpo\":24}"
    );
    assert_eq!(show(loudness.get("short_term_lkfs").unwrap()), "null");
    assert_eq!(show(loudness.get("mic_correction").unwrap()), "\"on\"");
    let octave = octave_frame(
        &channel(),
        &ctx(),
        3,
        Weighting::A,
        &vec![single(1000.0)],
        &vec![single(-20.0)],
        11,
        2,
    );
    assert_eq!(
        show(&octave),
        "{\"type\":\"visualize/fractional_octave\",\"cmd\":\"monitor_spectrum\",\"channel\":2,\
         \"n_channels\":1,\"sr\":48000,\"bpo\":3,\"weighting\":\"a\",\"freqs\":[1000],\
         \"spectrum\":[-20],\"spl_offset_db\":94,\"mic_correction\":\"on\",\"timestamp\":11,\
         \"xruns\":2,\"backend\":\"fake\"}"
    );
    let leq = octave_leq_frame(
        &channel(),
        &ctx(),
        3,
        Weighting::Z,
        Integration::Fast,
        d(2.0),
        &vec![single(1000.0)],
        &vec![d(-21.0)],
        11,
        2,
    );
    assert_eq!(show(leq.get("tau_s").unwrap()), "0.125");
    assert_eq!(show(leq.get("duration_s").unwrap()), "2");
    let tone = Tone {
        freq_hz: d(1000.0),
        peaks: vec![Peak { freq_hz: single(1000.0), dbfs: single(-20.0) }],
        fundamental_dbfs: d(-20.0),
        thd_pct: d(0.1),
        thdn_pct: d(0.2),
        in_dbu: None,
        clipping: false,
    };
    let f = spectrum_frame(
        &channel(),
        &ctx(),
        &vec![d(1000.0)],
        &vec![d(0.1)],
        &Some(tone),
        2,
    );
    assert_eq!(show(f.get("fundamental_dbfs").unwrap()), "-20");
    assert_eq!(show(f.get("in_dbu").unwrap()), "null");
}

#[test]
fn report_frames_carry_the_report() {
    assert_eq!(
        show(&plot_report_frame(Json::Uint(1))),
        "{\"type\":\"measurement/report\",\"cmd\":\"plot\",\"report\":1}"
    );
    assert_eq!(
        show(&report_frame("plot_ir", Json::Uint(1))),
        "{\"cmd\":\"plot_ir\",\"report\":1}"
    );
    assert_eq!(show(&ir_done_frame()), "{\"cmd\":\"plot_ir\"}");
    assert_eq!(
        no_routing_message("cpal"),
        "cpal backend does not support port routing"
    );
    assert_eq!(
        show(&fetch_failed(FetchStep::Seek, "bad")),
        "{\"ok\":false,\"error\":\"snapshot_fetch: seek: bad\"}"
    );
}

fn config() -> Config {
    Config {
        output_channel: 0,
        input_channel: 0,
        output_port: None,
        input_port: None,
        reference_channel: Some(1),
        reference_port: None,
        reference_output_channel: Some(1),
        reference_output_port: None,
        report_dir: None,
        snapshot_spool_dir: None,
        dbu_ref_vrms: d(0.7746),
        server_enabled: false,
        backend: None,
        dmm_host: None,
        server_idle_timeout_secs: None,
        snapshot_ring_s: d(30.0),
        temperature_c: None,
        drive_max_dbfs: d(-10.0),
        device: 0,
    }
}

#[test]
fn a_session_check_names_its_loopback() {
    let names = |p: &str| vec![format!("{p}1"), format!("{p}2")];
    let plan = SessionPlan {
        want_voltage: true,
        want_latency: false,
        loopback: configured_loopback(&config(), &names("p"), &names("c"))
            .unwrap()
            .unwrap(),
        backend: "fake".to_string(),
        fake: true,
    };
    let reply = session_started(&plan, &None, d(-20.0), d(1000.0));
    assert_eq!(
        show(reply.get("loopback").unwrap()),
        "{\"key\":\"out1_in1\",\"output_port\":\"p2\",\"input_port\":\"c2\"}"
    );
    assert_eq!(
        show(&done_frame(&plan)),
        "{\"cmd\":\"session_check\",\"backend\":\"fake\"}"
    );
    assert_eq!(
        show(&stopped_frame()),
        "{\"cmd\":\"session_check\",\"message\":\"session check stopped\"}"
    );
    let mut cache = PortCache { playback: None, capture: None };
    assert_eq!(cached_capture_ports(&mut cache, &names("c")), names("c"));
    assert_eq!(cached_capture_ports(&mut cache, &names("x")), names("c"));
}

fn conditions(sample_rate: u32) -> TauConditions {
    TauConditions {
        device: 0,
        backend: "jack".to_string(),
        sample_rate,
        period_size: Some(256),
        output_port: "o".to_string(),
        input_port: "i".to_string(),
    }
}

fn entry(sample_rate: u32, at: &str) -> TauEntry {
    TauEntry {
        conditions: conditions(sample_rate),
        tau_s: d(0.001),
        measured_at: at.to_string(),
        method: "m".to_string(),
        agreement_count: 2,
    }
}

#[test]
fn the_live_latency_shares_what_was_judged_last() {
    let history = vec![
        entry(48_000, "2026-01-01"),
        entry(48_000, "2026-01-03"),
        entry(96_000, "2026-01-09"),
    ];
    assert_eq!(latest_tau_entry(&vec![], "out1_in1", &history), Some(2));
    let judged = JudgedRecord {
        loopback_key: "out1_in1".to_string(),
        reach: vec![],
        ran_at: "2026-02-01".to_string(),
        judged: Some(conditions(48_000)),
    };
    let records = vec![judged];
    assert_eq!(latest_tau_entry(&records, "out1_in1", &history), Some(1));
    assert_eq!(latest_tau_entry(&records, "out0_in0", &history), Some(2));
    assert_eq!(latest_tau_entry(&records, "out1_in1", &vec![]), None);
    let outcome = tau_result(
        TauAttempt::LowSnr { conditions: None, pre_impulse_snr_db: d(1.0) },
        d(24.0),
    );
    assert_eq!(
        tau_not_measured_reason(&outcome, "1", "2"),
        "\u{3c4} reading refused (not_measured_low_snr)"
    );
}

#[test]
fn a_snapshot_tells_the_applied_verdict_of_each_channel() {
    let ring = SnapshotRingState::new(
        48_000,
        vec![4, 5],
        10,
        vec![(0, 1)],
        "Z".to_string(),
        "fast".to_string(),
        vec![None, None],
    );
    let (mut meta, _) = snapshot(Some(&ring), "1.0", 1).unwrap_or_else(|_| panic!("refused"));
    fill_voltage_checks(&mut meta, &vec![(5, "verified".to_string())]);
    assert_eq!(meta.per_channel[0].voltage_check, None);
    assert_eq!(
        meta.per_channel[1].voltage_check.as_deref(),
        Some("verified")
    );
}

#[test]
fn the_last_verdicts_keep_their_words() {
    assert_eq!(thd_levels().len(), 5);
    assert_eq!(response_freqs()[3], 1000);
    assert_eq!(tracking_levels()[6], 0);
    assert_eq!(dmm_freqs()[1], 1000);
    assert_eq!(dut_thd_levels()[5], -3);
    let n = dut_noise_floor("-90.0 dBFS".to_string());
    assert!(n.pass && n.detail == "-90.0 dBFS");
    let few = vec![FreqReading { freq_hz: 100, value: d(1.0) }];
    let r = hw_dmm_freq_response(&few, &vec![d(0.0)], &vec!["+0.00".to_string()], "0.00");
    assert_eq!((r.pass, r.detail.as_str()), (false, "insufficient readings"));
    assert_eq!(
        dut_freq_response(&ResponseReading::NoData).detail,
        "no data in 50-20kHz"
    );
    let m = dut_freq_response(&ResponseReading::Measured {
        above: "+0.5",
        below: "-0.7",
        coherence: "0.999",
        delay_ms: "1.25",
        level: "-20.0 dBFS",
    });
    assert_eq!(
        m.detail,
        "+0.5/-0.7 dB  (50-20kHz, coh 0.999, delay 1.25ms)  at -20.0 dBFS"
    );
}
