use ac_daemon::double::Double;
use ac_daemon::json::Json;
use ac_daemon::tau::{
    analyse_tau_leg, check_peak_snr, check_peak_within_window, first_reading, half_window, leg_window,
    second_reading, tau_override, tau_result, EdgeRefusal, EdgeSnr, LegPeak, LegRefusal, LifecycleFault,
    LowSnrRefusal, TailTooShort, TauAttempt, TauComparison, TauConditions, TauOutcome, TauReading,
    TAU_EDGE_MARGIN_FRAC, TAU_MIN_HALF_WINDOW_S, TAU_SNR_THRESHOLD_DB, TAU_TAIL_S,
};

fn d(x: f64) -> Double {
    Double::new(x.to_bits())
}

fn bits(b: u64) -> Double {
    Double::new(b)
}

fn f(x: Double) -> f64 {
    f64::from_bits(x.bits)
}

fn margin_frac() -> Double {
    bits(TAU_EDGE_MARGIN_FRAC)
}

fn threshold() -> Double {
    bits(TAU_SNR_THRESHOLD_DB)
}

#[test]
fn check_peak_within_window_refuses_peak_pinned_at_edge() {
    let window_len: usize = 9600;
    let half = window_len / 2;
    let peak_idx = window_len - 1;
    let pinned_offset_samples = peak_idx as i64 - half as i64;
    assert_eq!(pinned_offset_samples, half as i64 - 1);

    let result = check_peak_within_window(peak_idx, window_len, margin_frac());
    assert!(
        result.is_err(),
        "peak pinned at the window edge must be refused, not reported as {pinned_offset_samples}"
    );
}

#[test]
fn check_peak_within_window_refuses_at_margin_boundary() {
    let window_len: usize = 100;
    let half = window_len / 2;
    let margin = (f(margin_frac()) * half as f64).round() as usize;

    assert!(check_peak_within_window(margin, window_len, margin_frac()).is_err());
    assert!(check_peak_within_window(window_len - 1 - margin, window_len, margin_frac()).is_err());
}

#[test]
fn check_peak_within_window_accepts_interior_peak() {
    let window_len: usize = 9600;
    let half = window_len / 2;
    assert!(check_peak_within_window(half, window_len, margin_frac()).is_ok());
}

#[test]
fn check_peak_within_window_accepts_one_sample_past_margin_boundary() {
    let window_len: usize = 100;
    let half = window_len / 2;
    let margin = (f(margin_frac()) * half as f64).round() as usize;

    assert!(check_peak_within_window(margin + 1, window_len, margin_frac()).is_ok());
    assert!(
        check_peak_within_window(window_len - 1 - margin - 1, window_len, margin_frac()).is_ok()
    );
}

#[test]
fn check_peak_within_window_accepts_the_rigs_measured_round_trip() {
    let window_len: usize = 9600;
    let half = window_len / 2;
    let offset_samples = 4200i64;
    let peak_idx = (half as i64 + offset_samples) as usize;
    assert!(
        check_peak_within_window(peak_idx, window_len, margin_frac()).is_ok(),
        "the measured round trip must be inside the accepted window"
    );
}

#[test]
fn tau_tail_s_clears_tau_min_half_window_s_with_margin() {
    let tail = f(bits(TAU_TAIL_S));
    let half = f(bits(TAU_MIN_HALF_WINDOW_S));
    assert!(tail > half);
    assert!(tail >= 2.0 * half);
    assert_eq!(f(bits(TAU_MIN_HALF_WINDOW_S).doubled()), 2.0 * half);
}

#[test]
fn tau_env_override_parses_or_falls_back_to_the_compiled_constant() {
    let parse = |raw: Option<&str>| {
        f(tau_override(
            raw.and_then(|r| r.trim().parse::<f64>().ok()).map(d),
            d(0.05),
        ))
    };
    assert_eq!(parse(None), 0.05);
    assert_eq!(parse(Some(" 0.04862 ")), 0.04862);
    for bad in ["", "48.62ms", "-0.01", "nan", "inf"] {
        assert_eq!(parse(Some(bad)), 0.05, "{bad:?} must fall back");
    }
}

fn leg(peak: Option<LegPeak>, xruns: u32) -> Result<i64, LegRefusal> {
    analyse_tau_leg(
        bits(TAU_MIN_HALF_WINDOW_S),
        96_000,
        bits(TAU_TAIL_S),
        peak,
        margin_frac(),
        None,
        threshold(),
        xruns,
    )
}

#[test]
fn tau_edge_refusal_after_an_xrun_carries_no_snr() {
    let half = half_window(bits(TAU_MIN_HALF_WINDOW_S), 96_000);
    assert_eq!(half, 4800);
    let peak = LegPeak {
        peak_idx: 2 * half - 221,
        snr_db: d(23.0),
    };
    match leg(Some(peak), 1) {
        Err(LegRefusal::Edge(e)) => assert!(e.snr.is_none()),
        other => panic!("expected an edge refusal, got {other:?}"),
    }
    match leg(Some(peak), 0) {
        Err(LegRefusal::Edge(e)) => {
            let snr = e.snr.expect("a clean leg carries its SNR");
            assert!(snr.below_threshold);
            assert_eq!(f(snr.snr_db), 23.0);
        }
        other => panic!("expected an edge refusal, got {other:?}"),
    }
}

#[test]
fn a_leg_passes_its_gates_in_order() {
    let half = half_window(bits(TAU_MIN_HALF_WINDOW_S), 96_000);
    let good = LegPeak {
        peak_idx: half + 4200,
        snr_db: d(24.0),
    };
    assert_eq!(leg(Some(good), 0).unwrap(), 4200);
    let low = LegPeak {
        peak_idx: half + 32,
        snr_db: d(-3.45),
    };
    assert!(matches!(leg(Some(low), 0), Err(LegRefusal::LowSnr(_))));
    assert_eq!(leg(Some(low), 2).unwrap(), 32, "an xrun skips the SNR gate");
    assert!(matches!(leg(None, 0), Err(LegRefusal::EmptyIr)));
    let short = analyse_tau_leg(
        d(0.05),
        96_000,
        d(0.08),
        Some(good),
        margin_frac(),
        None,
        threshold(),
        0,
    );
    match short {
        Err(LegRefusal::Tail(t)) => assert_eq!(
            t.message("0.05", "0.1000", "0.08"),
            "\u{3c4} half-window 0.05 s needs a 0.1000 s gate but the capture tail is only 0.08 s \
             \u{2014} the window would run off the end of the capture"
        ),
        other => panic!("expected a short tail, got {other:?}"),
    }
    let derived = analyse_tau_leg(
        d(0.05),
        96_000,
        d(0.15),
        Some(good),
        margin_frac(),
        Some(d(24.5)),
        threshold(),
        0,
    );
    assert!(matches!(derived, Err(LegRefusal::LowSnr(_))));
}

#[test]
fn tau_refusal_messages_state_observations_only() {
    let edge = EdgeRefusal {
        peak_idx: 9599,
        window_len: 9600,
        margin: 480,
        snr: None,
    };
    assert_eq!(
        edge.message(),
        "\u{3c4} peak at offset +4799 samples is within the 480-sample edge margin of a \
         -4800 to +4799 sample window; no value reported"
    );
    let low = LowSnrRefusal {
        snr_db: d(21.34),
        threshold_db: d(24.0),
    };
    assert_eq!(
        low.message(
            &format!("{:.2}", f(low.snr_db)),
            &format!("{:.2}", f(low.threshold_db))
        ),
        "\u{3c4} peak pre-impulse SNR 21.34 dB is below the 24.00 dB threshold; no value \
         reported"
    );
}

#[test]
fn check_peak_snr_refuses_below_threshold() {
    assert!(check_peak_snr(d(23.99), d(24.0)).is_err());
}

#[test]
fn check_peak_snr_accepts_at_and_above_threshold() {
    assert!(check_peak_snr(d(24.0), d(24.0)).is_ok());
    assert!(check_peak_snr(d(83.5), d(24.0)).is_ok());
}

#[test]
fn check_peak_snr_refuses_the_rigs_measured_muted_route() {
    assert!(check_peak_snr(d(-3.45), threshold()).is_err());
}

#[test]
fn check_peak_snr_refusal_is_downcastable_to_its_own_type() {
    let refusal = check_peak_snr(d(-3.45), threshold()).expect_err("refused");
    assert_eq!(f(refusal.snr_db), -3.45);
    assert_eq!(f(refusal.threshold_db), 24.0);
}

fn dummy_conditions() -> TauConditions {
    TauConditions {
        device: 0,
        backend: "fake".to_string(),
        sample_rate: 48_000,
        period_size: Some(1024),
        output_port: "out".to_string(),
        input_port: "in".to_string(),
    }
}

fn compared(r1: f64, r2: f64, x1: u32, x2: u32, comparison: TauComparison) -> TauOutcome {
    tau_result(
        TauAttempt::Compared {
            conditions: dummy_conditions(),
            reading1_s: d(r1),
            reading2_s: d(r2),
            reading1_xruns: x1,
            reading2_xruns: x2,
            comparison,
            pre_impulse_snr_db: d(40.0),
        },
        threshold(),
    )
}

fn agree(r1: f64, r2: f64) -> TauComparison {
    TauComparison::Agree {
        mean_s: d((r1 + r2) / 2.0),
    }
}

fn period_shift() -> TauComparison {
    TauComparison::Disagree {
        delta_samples: 1024,
        periods: Some(1),
        message: "readings differ by 1 period (1024 samples)".to_string(),
    }
}

fn other_shift() -> TauComparison {
    TauComparison::Disagree {
        delta_samples: 24,
        periods: None,
        message: "readings differ by 24 samples, not a period multiple".to_string(),
    }
}

fn frame_for(outcome: &TauOutcome) -> Json {
    outcome.write_frame(Json::obj())
}

fn num(frame: &Json, key: &str) -> Option<f64> {
    frame.get(key).and_then(|v| v.as_double()).map(f)
}

fn uint(frame: &Json, key: &str) -> Option<u64> {
    frame.get(key).and_then(|v| v.as_uint())
}

fn null(frame: &Json, key: &str) -> bool {
    frame.get(key).map(|v| v.is_null()).unwrap_or(false)
}

fn text(frame: &Json, key: &str) -> String {
    frame
        .get(key)
        .and_then(|v| v.as_str())
        .expect("a text")
        .to_string()
}

#[test]
fn tau_result_low_snr_reports_new_state_and_fields() {
    let outcome = tau_result(
        TauAttempt::LowSnr {
            conditions: Some(dummy_conditions()),
            pre_impulse_snr_db: d(-3.45),
        },
        threshold(),
    );
    assert_eq!(outcome.state(), "not_measured_low_snr");
    assert!(outcome.conditions().is_some());
    assert!(outcome.stored_entry("m", "t").is_none());
    let fr = frame_for(&outcome);
    assert!(null(&fr, "tau_s"));
    assert_eq!(uint(&fr, "tau_agreement_count"), Some(0));
    assert_eq!(num(&fr, "tau_pre_impulse_snr_db"), Some(-3.45));
    assert_eq!(num(&fr, "tau_snr_threshold_db"), Some(24.0));
    assert!(fr.get("tau_error").is_none());
    assert!(fr.get("tau_reading1_s").is_none());
}

fn agreeing_readings_report_measured() {
    let outcome = compared(0.000_667, 0.000_667, 0, 0, agree(0.000_667, 0.000_667));
    assert_eq!(outcome.state(), "measured");
    assert!(outcome.conditions().is_some());

    let entry = outcome.stored_entry("farina_test", "now").expect("storable");
    assert_eq!(entry.agreement_count, 2);
    assert_eq!(entry.method, "farina_test");
    assert_eq!(entry.measured_at, "now");
    assert!((f(entry.tau_s) - 0.000_667).abs() < 1e-12);

    let fr = frame_for(&outcome);
    assert_eq!(uint(&fr, "tau_agreement_count"), Some(2));
    assert!((num(&fr, "tau_s").unwrap() - 0.000_667).abs() < 1e-12);
    assert!(fr.get("tau_reading1_s").is_some());
    assert!(fr.get("tau_reading2_s").is_some());
    assert!(fr.get("tau_error").is_none());
    assert!(fr.get("tau_delta_samples").is_none());
    assert!(fr.get("tau_periods").is_none());
    assert_eq!(num(&fr, "tau_pre_impulse_snr_db"), Some(40.0));
    assert_eq!(num(&fr, "tau_snr_threshold_db"), Some(24.0));
    assert_eq!(uint(&fr, "tau_reading1_xruns"), Some(0));
    assert_eq!(uint(&fr, "tau_reading2_xruns"), Some(0));
}

#[test]
fn calibrate_tau_result_agreeing_readings_reports_measured_with_agreement_count() {
    agreeing_readings_report_measured();
}

#[test]
fn mod_tau_result_agreeing_readings_reports_measured_with_agreement_count() {
    agreeing_readings_report_measured();
}

fn two_readings_are_averaged() {
    let (a, b) = (0.001_000_00, 0.001_000_02);
    let outcome = compared(a, b, 0, 0, agree(a, b));
    let tau_s = f(outcome.stored_entry("m", "t").expect("measured").tau_s);
    assert!((tau_s - 0.001_000_01).abs() < 1e-9);
}

#[test]
fn calibrate_tau_result_averages_two_agreeing_readings() {
    two_readings_are_averaged();
}

#[test]
fn mod_tau_result_averages_two_agreeing_readings() {
    two_readings_are_averaged();
}

fn a_period_shift_names_the_period() {
    let outcome = compared(
        4262.064 / 96_000.0,
        5286.064 / 96_000.0,
        0,
        0,
        period_shift(),
    );
    assert_eq!(outcome.state(), "disagree_period_shift");
    assert!(
        outcome.stored_entry("m", "t").is_none(),
        "a disagreement must never be stored"
    );
    let fr = frame_for(&outcome);
    assert!(null(&fr, "tau_s"));
    assert_eq!(uint(&fr, "tau_agreement_count"), Some(0));
    assert_eq!(uint(&fr, "tau_periods"), Some(1));
    assert_eq!(uint(&fr, "tau_delta_samples"), Some(1024));
    let msg = text(&fr, "tau_error");
    assert!(msg.contains("1 period"), "got {msg}");
    assert!(msg.contains("1024"), "got {msg}");
}

#[test]
fn calibrate_tau_result_period_shift_disagreement_refuses_and_names_the_period() {
    a_period_shift_names_the_period();
}

#[test]
fn mod_tau_result_period_shift_disagreement_refuses_and_names_the_period() {
    a_period_shift_names_the_period();
}

fn another_disagreement_is_another_state() {
    let outcome = compared(0.0, 0.000_5, 0, 0, other_shift());
    assert_eq!(outcome.state(), "disagree_other");
    assert!(outcome.stored_entry("m", "t").is_none());
    let fr = frame_for(&outcome);
    assert!(null(&fr, "tau_s"));
    assert!(fr.get("tau_periods").is_none());
    assert!(fr.get("tau_delta_samples").is_some());
    let msg = text(&fr, "tau_error");
    assert!(msg.contains("not a period multiple"), "got {msg}");
}

#[test]
fn calibrate_tau_result_non_period_disagreement_is_a_different_state() {
    another_disagreement_is_another_state();
}

#[test]
fn mod_tau_result_non_period_disagreement_is_a_different_state() {
    another_disagreement_is_another_state();
}

fn a_failed_lifecycle_is_an_error() {
    let outcome = tau_result(
        TauAttempt::Error {
            conditions: None,
            message: "\u{3c4} measurement failed (reading 1 of 2): timeout".to_string(),
        },
        threshold(),
    );
    assert_eq!(outcome.state(), "error");
    assert!(outcome.conditions().is_none());
    assert!(outcome.stored_entry("m", "t").is_none());
    let fr = frame_for(&outcome);
    assert!(null(&fr, "tau_s"));
    assert!(fr.get("tau_reading1_s").is_none());
    let msg = text(&fr, "tau_error");
    assert!(msg.contains("timeout"), "got {msg}");
    assert!(fr.get("tau_pre_impulse_snr_db").is_none());
    assert!(fr.get("tau_snr_threshold_db").is_none());
}

#[test]
fn calibrate_tau_result_loopback_err_reports_error_state_and_message() {
    a_failed_lifecycle_is_an_error();
}

#[test]
fn mod_tau_result_loopback_err_reports_error_state_and_message() {
    a_failed_lifecycle_is_an_error();
}

#[test]
fn tau_result_xrun_on_one_reading_refuses_even_when_readings_agree() {
    let outcome = compared(0.000_667, 0.000_667, 0, 1, agree(0.000_667, 0.000_667));
    assert_eq!(outcome.state(), "refused_xrun");
    assert!(outcome.stored_entry("m", "t").is_none());
    let fr = frame_for(&outcome);
    assert!(null(&fr, "tau_s"));
    assert_eq!(uint(&fr, "tau_agreement_count"), Some(0));
    assert_eq!(num(&fr, "tau_reading1_s"), Some(0.000_667));
    assert_eq!(num(&fr, "tau_reading2_s"), Some(0.000_667));
    assert_eq!(uint(&fr, "tau_reading1_xruns"), Some(0));
    assert_eq!(uint(&fr, "tau_reading2_xruns"), Some(1));
    assert!(fr.get("tau_delta_samples").is_none());
    assert!(fr.get("tau_periods").is_none());
    assert!(fr.get("tau_error").is_none());
}

#[test]
fn tau_result_xrun_on_reading1_is_attributed_to_reading1() {
    let outcome = compared(0.000_667, 0.000_667, 3, 0, agree(0.000_667, 0.000_667));
    assert_eq!(outcome.state(), "refused_xrun");
    let fr = frame_for(&outcome);
    assert_eq!(uint(&fr, "tau_reading1_xruns"), Some(3));
    assert_eq!(uint(&fr, "tau_reading2_xruns"), Some(0));
}

#[test]
fn tau_result_xrun_on_both_readings_carries_both_counts() {
    let outcome = compared(0.000_667, 0.000_667, 2, 1, agree(0.000_667, 0.000_667));
    assert_eq!(outcome.state(), "refused_xrun");
    let fr = frame_for(&outcome);
    assert_eq!(uint(&fr, "tau_reading1_xruns"), Some(2));
    assert_eq!(uint(&fr, "tau_reading2_xruns"), Some(1));
}

#[test]
fn tau_result_xrun_takes_priority_over_disagreement() {
    let outcome = compared(0.0, 0.000_5, 1, 0, other_shift());
    assert_eq!(outcome.state(), "refused_xrun");
    let fr = frame_for(&outcome);
    assert!(fr.get("tau_delta_samples").is_none());
}

fn reading(tau_s: f64, snr_db: f64, xruns: u32) -> TauReading {
    TauReading {
        conditions: dummy_conditions(),
        tau_s: d(tau_s),
        snr_db: d(snr_db),
        xruns,
    }
}

#[test]
fn a_failed_first_lifecycle_ends_the_attempt() {
    match first_reading(Err(LifecycleFault::Other {
        message: "timeout".to_string(),
    })) {
        Err(TauAttempt::Error { conditions, message }) => {
            assert!(conditions.is_none());
            assert_eq!(
                message,
                "\u{3c4} measurement failed (reading 1 of 2): timeout"
            );
        }
        other => panic!("expected an error, got {other:?}"),
    }
    match first_reading(Err(LifecycleFault::LowSnr { snr_db: d(3.0) })) {
        Err(TauAttempt::LowSnr { conditions, .. }) => assert!(conditions.is_none()),
        other => panic!("expected a low SNR, got {other:?}"),
    }
}

#[test]
fn two_lifecycles_report_the_worse_snr() {
    let first = first_reading(Ok(reading(0.001, 50.0, 0))).expect("a reading");
    match second_reading(first, Ok((reading(0.001, 41.0, 2), agree(0.001, 0.001)))) {
        TauAttempt::Compared {
            pre_impulse_snr_db,
            reading2_xruns,
            ..
        } => {
            assert_eq!(f(pre_impulse_snr_db), 41.0);
            assert_eq!(reading2_xruns, 2);
        }
        other => panic!("expected a comparison, got {other:?}"),
    }
    match second_reading(
        reading(0.001, 50.0, 0),
        Err(LifecycleFault::LowSnr { snr_db: d(1.0) }),
    ) {
        TauAttempt::LowSnr { conditions, .. } => assert!(conditions.is_some()),
        other => panic!("expected a low SNR, got {other:?}"),
    }
    let tail = TailTooShort {
        half_window_s: d(0.05),
        tail_s: d(0.08),
        needed_s: d(0.1),
    };
    assert!(tail.message("a", "b", "c").contains("tail is only c s"));
}

#[test]
fn every_outcome_tells_its_state_value_and_count() {
    let outcomes = [
        TauOutcome::Error { conditions: None, message: "no engine".to_string() },
        TauOutcome::NotMeasuredLowSnr {
            conditions: None,
            pre_impulse_snr_db: d(10.0),
            snr_threshold_db: d(24.0),
        },
    ];
    for (outcome, state) in outcomes.iter().zip(["error", "not_measured_low_snr"]) {
        let f = frame_for(outcome);
        assert_eq!(f.get("tau_state").unwrap().as_str(), Some(state));
        assert!(f.get("tau_s").unwrap().is_null());
        assert_eq!(f.get("tau_agreement_count").unwrap().as_uint(), Some(0));
        assert!(f.get("tau_delta_samples").is_none());
        assert!(f.get("tau_reading1_xruns").is_none());
    }
}

fn edge_of(r: Result<i64, LegRefusal>) -> EdgeRefusal {
    match r {
        Err(LegRefusal::Edge(e)) => e,
        other => panic!("expected an edge refusal, got {other:?}"),
    }
}

const HALF: usize = 4800;
const WINDOW_LEN: usize = 2 * HALF;

#[test]
fn tau_arrival_just_past_the_edge_is_refused_by_the_edge_check_alone() {
    let snr_db = d(25.5);
    let peak = LegPeak { peak_idx: WINDOW_LEN - 1, snr_db };
    let refusal = edge_of(leg(Some(peak), 0));
    assert_eq!(refusal.peak_idx, WINDOW_LEN - 1);
    assert_eq!(
        refusal.snr,
        Some(EdgeSnr { snr_db, threshold_db: threshold(), below_threshold: false })
    );
    assert!(check_peak_within_window(WINDOW_LEN - 1, WINDOW_LEN, d(0.0)).is_err());
    assert!(check_peak_within_window(0, WINDOW_LEN, d(0.0)).is_err());
}

#[test]
fn tau_skirt_peak_past_the_edge_is_inside_the_shipped_margin() {
    for dist_from_end in 100..=300usize {
        let peak_idx = WINDOW_LEN - 1 - dist_from_end;
        let snr_db = d(22.5);
        assert!(check_peak_within_window(peak_idx, WINDOW_LEN, margin_frac()).is_err());
        assert!(check_peak_within_window(peak_idx, WINDOW_LEN, d(0.02)).is_ok());
        let refusal = edge_of(leg(Some(LegPeak { peak_idx, snr_db }), 0));
        assert_eq!(refusal.peak_idx, peak_idx);
        assert_eq!(
            refusal.snr,
            Some(EdgeSnr { snr_db, threshold_db: threshold(), below_threshold: true })
        );
    }
}

#[test]
fn tau_issue_494_delays_are_refused_with_the_edge_reason() {
    let pinned = edge_of(leg(Some(LegPeak { peak_idx: WINDOW_LEN - 1, snr_db: d(25.0) }), 0));
    assert_eq!(pinned.window_first_offset_samples(), -(HALF as i64));
    assert_eq!(pinned.window_last_offset_samples(), HALF as i64 - 1);
    assert_eq!(pinned.peak_offset_samples(), HALF as i64 - 1);
    for dist_from_end in 1..=480usize {
        let peak_idx = WINDOW_LEN - 1 - dist_from_end;
        let refusal = edge_of(leg(Some(LegPeak { peak_idx, snr_db: d(20.0) }), 0));
        assert!(dist_from_end <= refusal.margin);
        assert!(refusal.snr.is_some_and(|s| s.below_threshold));
    }
}

#[test]
fn tau_noise_only_capture_clear_of_the_edge_is_refused_for_low_snr() {
    let margin = 480;
    for peak_idx in (2 * margin + 1)..(WINDOW_LEN - 1 - 2 * margin) {
        match leg(Some(LegPeak { peak_idx, snr_db: d(3.2) }), 0) {
            Err(LegRefusal::LowSnr(refusal)) => {
                assert_eq!(refusal.snr_db, d(3.2));
                assert_eq!(refusal.threshold_db, threshold());
            }
            other => panic!("expected a low-SNR refusal, got {other:?}"),
        }
    }
}

#[test]
fn tau_clean_in_window_arrival_is_accepted_at_its_delay() {
    for delay in [32usize, 1711, 4200] {
        let peak = LegPeak { peak_idx: HALF + delay, snr_db: d(80.0) };
        let offset = leg(Some(peak), 0).unwrap();
        assert_eq!(offset as f64 / 96_000.0, delay as f64 / 96_000.0);
    }
}

#[test]
fn tau_arrival_inside_the_margin_is_located_exactly_and_refused() {
    let delay = HALF - 100;
    let refusal = edge_of(leg(Some(LegPeak { peak_idx: HALF + delay, snr_db: d(80.0) }), 0));
    assert_eq!(refusal.peak_idx, HALF + delay);
    assert_eq!(refusal.peak_offset_samples(), delay as i64);
    let first_kept = LegPeak { peak_idx: HALF + 4318, snr_db: d(80.0) };
    assert_eq!(leg(Some(first_kept), 0).unwrap(), 4318);
    assert!(leg(Some(LegPeak { peak_idx: HALF + 4319, ..first_kept }), 0).is_err());
}

#[test]
fn a_leg_makes_its_window_from_the_half_window_and_the_rate() {
    assert_eq!(leg_window(d(0.05), 96_000, d(0.15)).unwrap(), 9600);
    assert_eq!(leg_window(d(0.05), 44_100, d(0.1)).unwrap(), 4410);
    assert_eq!(leg_window(d(0.04862), 48_000, d(0.15)).unwrap(), 2 * 2334);
    let short = leg_window(d(0.08), 96_000, d(0.15)).unwrap_err();
    assert_eq!((short.half_window_s, short.tail_s), (d(0.08), d(0.15)));
    assert_eq!(short.needed_s, d(0.16));
    assert!(leg_window(d(1e300), 96_000, d(0.15)).is_err());
}

#[test]
fn both_window_edges_are_treated_alike() {
    for n in [2usize, 9, 240, 9600] {
        for frac in [0.0, 0.02, 0.1, 0.5, 3.0] {
            let margin = (frac * (n / 2) as f64).round() as usize;
            for p in 0..n {
                let here = check_peak_within_window(p, n, d(frac));
                let there = check_peak_within_window(n - 1 - p, n, d(frac));
                assert_eq!(here.is_err(), there.is_err(), "{p} of {n}, {frac}");
                assert_eq!(here.is_err(), p.min(n - 1 - p) <= margin, "{p} of {n}, {frac}");
                if let Err(e) = here {
                    assert_eq!((e.peak_idx, e.window_len, e.margin), (p, n, margin));
                    assert!(e.snr.is_none());
                }
            }
        }
    }
    let wide = check_peak_within_window(5, usize::MAX, d(0.1)).unwrap_err();
    assert_eq!(wide.margin, (0.1 * (usize::MAX / 2) as f64).round() as usize);
}
