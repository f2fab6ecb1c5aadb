use ac_daemon::calibrate::{
    apply_cal_reading, cal_reply, calibrate, calibrate_frame, calibrate_spl, calibrate_started,
    channels_from, finish_cal, input_level, input_prompt, output_prompt, save_readings,
    save_sensitivity, spl_frame, spl_prompt, spl_started, wait_cal_reply, CalReadings, CalReply,
    CalStage, FieldState,
};
use ac_daemon::calibration::{snapshot_from_cal, Calibration, MicResponse};
use ac_daemon::config::Config;
use ac_daemon::busy::CommandGroups;
use ac_daemon::double::{Double, Single};
use ac_daemon::json::Json;
use ac_daemon::launch::Launch;
use ac_daemon::mic::MicCorrection;
use ac_daemon::mic_curve::{
    calibrate_mic_curve, curve_saved, curve_target, parse_curve, CurveLimits,
};
use ac_daemon::plot::{
    band_range, complete_frame, emit_spectrum_bands, run_done_frame, PlotIrPlan, PlotPlan,
    PlotPorts, PlotRun, ToneStep,
};
use ac_daemon::point::{
    downsample, sweep_point_frame, Analysis, PointVolts, Tier1Ctx, Volts,
};
use ac_daemon::report::{
    bands_report, chain_at_report, harmonic_orders, ir_frame, ir_gates, ir_notes, ir_report,
    plot_report, report_file, resolve_tau, Citation, GateParams, ImpulseResponse,
    InterfaceLatency, MeasurementData, MeasurementMethod, ReportStamp,
};
use ac_daemon::selftest::{
    compare_prompt, dut_reply, prompt_over, DutRun, DutStep, DutTest, HardwareRun, HardwareTest,
    TestResult,
};
use ac_daemon::settings::{Integration, Weighting};
use ac_daemon::tau::{tau_result, TauAttempt, TauConditions, TauEntry};
use ac_daemon::verdicts::{
    band_indices, cal_dbu_str, clip_levels, dut_gain, dut_thd_vs_level, hw_channel_match,
    hw_dmm_absolute, hw_dmm_tracking, hw_freq_response, hw_level_linearity, hw_noise_floor,
    hw_repeatability, hw_thd_floor, least_of, linearity_levels, reference_reading,
    step_tolerance, valid_readings, worst_of, ClipReading, ClipSearch, Corroboration, Difference,
    FreqReading, GainReading, NoCorroboration, ThdAtDrive,
};

fn d(x: f64) -> Double {
    Double::new(x.to_bits())
}

fn show(j: &Json) -> String {
    match j {
        Json::Null => "null".to_string(),
        Json::Bool(b) => format!("{b}"),
        Json::Uint(n) => format!("{n}"),
        Json::Int(n) => format!("{n}"),
        Json::Decimal { text, .. } => text.clone(),
        Json::Float(x) => format!("{}", f64::from_bits(x.bits)),
        Json::Float32(x) => format!("{}", f32::from_bits(x.bits)),
        Json::Str(s) => format!("{s:?}"),
        Json::Arr(a) => format!("[{}]", a.iter().map(show).collect::<Vec<_>>().join(",")),
        Json::Obj(o) => format!(
            "{{{}}}",
            o.iter()
                .map(|(k, v)| format!("{k:?}:{}", show(v)))
                .collect::<Vec<_>>()
                .join(",")
        ),
    }
}

fn single(x: f32) -> Single {
    Single { bits: x.to_bits() }
}

fn f(x: Double) -> f64 {
    f64::from_bits(x.bits)
}

#[test]
fn downsampling_picks_the_same_bins_as_floating_point() {
    for (n, max_pts) in [(1500usize, 1000u32), (65_537, 1000), (2000, 7), (5, 2), (9, 1)] {
        let spec: Vec<Double> = (0..n).map(|i| d(i as f64)).collect();
        let freqs: Vec<Double> = (0..n).map(|i| d(2.0 * i as f64)).collect();
        let (s, fr) = downsample(&spec, &freqs, max_pts);
        let mut want: Vec<usize> = (0..max_pts as usize)
            .map(|i| {
                let t = i as f64 / (max_pts as usize - 1) as f64;
                ((n - 1) as f64 * t) as usize
            })
            .collect();
        want.sort_unstable();
        want.dedup();
        let got: Vec<usize> = s.iter().map(|x| f(*x) as usize).collect();
        assert_eq!(got, want, "n={n} max_pts={max_pts}");
        for (a, b) in s.iter().zip(fr.iter()) {
            assert_eq!(2.0 * f(*a), f(*b));
        }
    }
    let few = vec![d(1.0), d(2.0)];
    let (s, _) = downsample(&few, &few, 1000);
    assert_eq!(s, few);
}

#[test]
fn fractions_are_rounded_like_the_hardware() {
    for den in [1u32, 2, 3, 7, 10, 999, 1000, 65_535, 4_294_967_295] {
        for i in 0..200u32 {
            let num = (i as u64 * den as u64 / 199) as u32;
            assert_eq!(
                Double::fraction(num, den).bits,
                (num as f64 / den as f64).to_bits(),
                "{num}/{den}"
            );
        }
    }
}

fn analysis(bins: usize) -> Analysis {
    Analysis {
        thd_pct: d(0.5),
        thdn_pct: d(0.6),
        fundamental_hz: d(1000.0),
        fundamental_dbfs: d(-20.0),
        linear_rms: d(0.07),
        noise_floor_dbfs: d(-100.0),
        harmonic_levels: vec![(d(2000.0), d(0.001)), (d(3000.0), d(f64::NAN))],
        spectrum: (0..bins).map(|i| d(i as f64)).collect(),
        freqs: (0..bins).map(|i| d(10.0 * i as f64)).collect(),
        clipping: false,
        ac_coupled: true,
    }
}

fn no_volts() -> PointVolts {
    PointVolts {
        output: None,
        input: None,
        difference_db: d(0.0),
        vrms_at_0dbfs_out: None,
        vrms_at_0dbfs_in: None,
    }
}

#[test]
fn a_point_frame_tells_what_was_active() {
    let ctx = Tier1Ctx {
        mic: MicCorrection {
            curve_loaded: true,
            enabled: false,
        },
        spl_offset_db: Some(d(94.0)),
        weighting: Weighting::A,
        time_integration: Integration::Fast,
        smoothing_bpo: None,
    };
    let mut volts = no_volts();
    volts.output = Some(Volts {
        vrms: d(1.0),
        dbu: d(2.2),
    });
    volts.difference_db = d(-3.0);
    let frame = sweep_point_frame(&analysis(4), volts, 7, "plot", d(-12.0), Some(d(1000.0)), ctx);
    assert_eq!(
        show(&frame),
        "{\"type\":\"measurement/frequency_response/point\",\"cmd\":\"plot\",\"n\":7,\
         \"drive_db\":-12,\"thd_pct\":0.5,\"thdn_pct\":0.6,\"fundamental_hz\":1000,\
         \"fundamental_dbfs\":-20,\"linear_rms\":0.07,\
         \"harmonic_levels\":[[2000,0.001],[3000,null]],\"noise_floor_dbfs\":-100,\
         \"spectrum\":[1,2,3],\"freqs\":[10,20,30],\"clipping\":false,\"ac_coupled\":true,\
         \"out_vrms\":1,\"out_dbu\":2.2,\"in_vrms\":null,\"in_dbu\":null,\"gain_db\":null,\
         \"vrms_at_0dbfs_out\":null,\"vrms_at_0dbfs_in\":null,\"mic_correction\":\"off\",\
         \"spl_offset_db\":94,\"weighting\":\"a\",\"time_integration\":\"fast\",\
         \"smoothing_bpo\":null,\"freq_hz\":1000}"
    );
    volts.input = volts.output;
    let both = sweep_point_frame(&analysis(1), volts, 0, "plot", d(0.0), None, Tier1Ctx::default());
    assert_eq!(show(both.get("gain_db").unwrap()), "-3");
    assert_eq!(show(both.get("spectrum").unwrap()), "[0]");
    assert_eq!(show(both.get("mic_correction").unwrap()), "\"none\"");
    assert!(both.get("freq_hz").is_none());
}

#[test]
fn a_run_counts_points_and_keeps_captures() {
    let steps = vec![
        ToneStep { freq_hz: d(20.0), level_dbfs: d(-12.0) },
        ToneStep { freq_hz: d(40.0), level_dbfs: d(-12.0) },
    ];
    let mut run = PlotRun::new();
    assert_eq!(run.next(&steps, false).unwrap().freq_hz, d(20.0));
    assert!(run.next(&steps, true).is_none());
    let block = vec![single(0.5), single(-0.5)];
    let frame = run.captured(
        "plot",
        steps[0],
        &block,
        2,
        &Some(analysis(3)),
        no_volts(),
        Tier1Ctx::default(),
        true,
    );
    assert_eq!(show(frame.unwrap().get("n").unwrap()), "0");
    let none = run.captured(
        "plot",
        steps[1],
        &block,
        1,
        &None,
        no_volts(),
        Tier1Ctx::default(),
        true,
    );
    assert!(none.is_none());
    assert!(run.next(&steps, false).is_none());
    assert_eq!((run.n, run.xruns, run.points.len()), (1, 3, 1));
    assert_eq!(run.capture.len(), 4);
    assert_eq!(
        show(&complete_frame(&run)),
        "{\"type\":\"measurement/frequency_response/complete\",\"cmd\":\"plot\",\"n_points\":1,\
         \"xruns\":3}"
    );
    assert_eq!(
        show(&run_done_frame("plot_level", &run)),
        "{\"cmd\":\"plot_level\",\"n_points\":1,\"xruns\":3}"
    );
    assert_eq!(
        band_range(d(0.5), d(20000.0), d(19845.0)),
        (d(1.0), d(19845.0))
    );
    assert_eq!(
        show(&emit_spectrum_bands(3, "Class 1", &vec![d(1000.0)], &vec![d(-20.0)])),
        "{\"cmd\":\"plot\",\"bpo\":3,\"class\":\"Class 1\",\"centres_hz\":[1000],\
         \"levels_dbfs\":[-20]}"
    );
}

fn ports() -> PlotPorts {
    PlotPorts {
        out_port: "p1".to_string(),
        in_port: "c1".to_string(),
    }
}

fn plot_plan() -> PlotPlan {
    PlotPlan {
        start_hz: d(20.0),
        stop_hz: d(20000.0),
        level_dbfs: d(-12.0),
        ppd: 10,
        duration: d(1.0),
        bpo: Some(4_294_967_299),
        ports: ports(),
    }
}

#[test]
fn reports_archive_what_was_run() {
    let chain = chain_at_report(
        Weighting::C,
        Integration::Slow,
        MicCorrection {
            curve_loaded: true,
            enabled: true,
        },
    );
    assert!(chain.mic_correction_applied);
    let r = plot_report(
        &plot_plan(),
        PlotRun::new(),
        48_000,
        &stamp(),
        None,
        Some(d(21.0)),
        chain,
    );
    assert_eq!(r.integration.window, "hann");
    assert!(matches!(r.method, MeasurementMethod::SteppedSine { n_points: 0 }));
    assert_eq!(r.temperature_c, Some(d(21.0)));
    assert!(r.interface_latency.is_none());
    let b = bands_report(
        &plot_plan(),
        4_294_967_299,
        "Class 1",
        vec![d(1000.0)],
        vec![d(-20.0)],
        48_000,
        &stamp(),
        None,
        None,
        chain,
    );
    assert_eq!(r.data[0].standard, [Citation::HarmonicDistortion]);
    assert_eq!((r.schema_version, r.ac_version.as_str()), (4, "0.9"));
    assert_eq!(r.timestamp_utc, "2026-01-02T03:04:05Z");
    assert!(r.integration.n_averages.is_none());
    assert_eq!(b.data[0].standard, [Citation::Filterbank]);
    assert_eq!(b.stimulus.n_points, 1);
    match &b.data[0].data {
        MeasurementData::SpectrumBands { bpo, .. } => assert_eq!(*bpo, 3),
        other => panic!("unexpected {other:?}"),
    }
    assert_eq!(
        report_file("2026-01-02T03:04:05Z", "-plot-bands.json"),
        "2026-01-02T03-04-05Z-plot-bands.json"
    );
}

fn stamp() -> ReportStamp {
    ReportStamp {
        schema_version: 4,
        ac_version: "0.9".to_string(),
        timestamp_utc: "2026-01-02T03:04:05Z".to_string(),
    }
}

fn conditions() -> TauConditions {
    TauConditions {
        device: 2,
        backend: "jack".to_string(),
        sample_rate: 48_000,
        period_size: None,
        output_port: "out".to_string(),
        input_port: "in".to_string(),
    }
}

fn entry() -> TauEntry {
    TauEntry {
        conditions: conditions(),
        tau_s: d(0.001),
        measured_at: "then".to_string(),
        method: "m".to_string(),
        agreement_count: 2,
    }
}

#[test]
fn a_latency_is_looked_up_and_never_guessed() {
    match resolve_tau(&None, &conditions()) {
        InterfaceLatency::Unavailable { reason } => assert_eq!(
            reason,
            "no calibration stored for this channel pair \u{2014} run `ac calibrate` with \
             loopback patched to measure \u{3c4} for device 2 / jack backend"
        ),
        other => panic!("unexpected {other:?}"),
    }
    match resolve_tau(&Some(Err("period differs".to_string())), &conditions()) {
        InterfaceLatency::Unavailable { reason } => assert_eq!(reason, "period differs"),
        other => panic!("unexpected {other:?}"),
    }
    match resolve_tau(&Some(Ok(entry())), &conditions()) {
        InterfaceLatency::Measured(m) => {
            assert_eq!(m.tau_s, d(0.001));
            assert_eq!(m.backend, "jack");
        }
        other => panic!("unexpected {other:?}"),
    }
}

#[test]
fn impulse_response_notes_stand_one_to_a_line() {
    assert_eq!(
        ir_notes(&Ok("decays".to_string()), &None, "linear", false),
        "decays\nlinear"
    );
    assert_eq!(
        ir_notes(
            &Err("too short".to_string()),
            &Some("clamped".to_string()),
            "linear",
            true
        ),
        "ISO 18233 \u{a7}6.3.2 tail-decay check could not be evaluated: too short\nclamped\n\
         linear\nmic correction applied to the gated frequency-response payload only; the linear \
         impulse response and harmonics are uncorrected raw capture data"
    );
    let g = ir_gates(Some(3001), 4096);
    assert_eq!((g.linear, g.arrival, g.gated), (3001, 1500, 1500));
    let g = ir_gates(None, 3);
    assert_eq!((g.linear, g.arrival, g.gated), (3, 1, 2));
    assert_eq!((harmonic_orders(0), harmonic_orders(5)), (1, 5));
    assert_eq!(
        show(&ir_frame(Json::Null, 4096, &vec![4096, 2818])),
        "{\"cmd\":\"plot_ir\",\"data\":null,\"window_len_requested\":4096,\
         \"window_len_used\":[4096,2818]}"
    );
}

fn window() -> GateParams {
    GateParams {
        gate_start_s: d(0.0),
        gate_length_s: d(0.02),
        window_kind: "rectangular".to_string(),
        f_low_hz: d(50.0),
    }
}

#[test]
fn an_impulse_response_report_holds_both_payloads() {
    let plan = PlotIrPlan {
        f1_hz: d(20.0),
        f2_hz: d(20000.0),
        duration: d(1.0),
        level_dbfs: d(-12.0),
        tail_s: d(0.5),
        n_harmonics: 5,
        window_len: 4096,
        ports: ports(),
    };
    let ir = ImpulseResponse {
        sample_rate_hz: 48_000,
        f1_hz: d(20.0),
        f2_hz: d(20000.0),
        duration_s: d(1.0),
        linear_ir: vec![d(1.0)],
        harmonics: vec![],
        noise_tail_start_s: None,
    };
    let r = ir_report(
        &plan,
        48_000,
        &stamp(),
        None,
        None,
        resolve_tau(&None, &conditions()),
        ir,
        window(),
        vec![],
        window(),
        &Ok("decays".to_string()),
        &None,
        "linear",
        MicCorrection {
            curve_loaded: true,
            enabled: false,
        },
    );
    assert_eq!(r.data.len(), 2);
    assert_eq!(r.data[0].standard, [Citation::SweptSine]);
    assert_eq!(r.data[1].standard, [Citation::Deconvolution, Citation::GatedResponse]);
    assert_eq!(r.schema_version, 4);
    assert_eq!(r.integration.window, "farina-inverse");
    assert_eq!(r.stimulus.n_points, 0);
    assert!(!r.processing_chain.mic_correction_applied);
    assert_eq!(r.notes.as_deref(), Some("decays\nlinear"));
    let ir = ImpulseResponse {
        sample_rate_hz: 48_000,
        f1_hz: d(20.0),
        f2_hz: d(20000.0),
        duration_s: d(1.0),
        linear_ir: vec![],
        harmonics: vec![],
        noise_tail_start_s: None,
    };
    let r = ir_report(
        &plan,
        48_000,
        &stamp(),
        None,
        None,
        resolve_tau(&None, &conditions()),
        ir,
        window(),
        vec![],
        window(),
        &Ok("decays".to_string()),
        &Some("clamped".to_string()),
        "linear",
        MicCorrection {
            curve_loaded: true,
            enabled: true,
        },
    );
    assert!(r.processing_chain.mic_correction_applied);
    let notes = r.notes.unwrap();
    let lines: Vec<&str> = notes.lines().collect();
    assert_eq!(lines[..3], ["decays", "clamped", "linear"]);
    assert!(lines[3].starts_with("mic correction applied to the gated"));
}

fn calibration() -> Calibration {
    Calibration {
        output_channel: 1,
        input_channel: 2,
        vrms_at_0dbfs_out: Some(d(4.0)),
        vrms_at_0dbfs_in: None,
        ref_freq: d(1000.0),
        ref_dbfs: d(-20.0),
        mic_sensitivity_dbfs_at_94db_spl: Some(d(-30.0)),
        mic_response: None,
        tau_history: vec![],
    }
}

#[test]
fn a_skipped_prompt_never_writes() {
    let mut field = Some(d(4.0));
    assert_eq!(
        apply_cal_reading(&mut field, CalReply::Skip, d(9.0)),
        FieldState::Unchanged
    );
    assert_eq!(field, Some(d(4.0)));
    assert_eq!(
        apply_cal_reading(&mut field, CalReply::Value(d(1.0)), d(9.0)),
        FieldState::Measured
    );
    assert_eq!(field, Some(d(9.0)));
    assert_eq!(
        apply_cal_reading(&mut field, CalReply::Clear, d(9.0)),
        FieldState::Absent
    );
    assert_eq!(field, None);
    assert_eq!(
        apply_cal_reading(&mut field, CalReply::Skip, d(9.0)),
        FieldState::Absent
    );
}

#[test]
fn a_reply_clears_only_by_name() {
    let clear = Json::obj()
        .with("clear", Json::Bool(true))
        .with("vrms", Json::Uint(1));
    assert_eq!(cal_reply(&clear).0, CalReply::Clear);
    let value = Json::obj().with("vrms", Json::float(d(1.5)));
    assert_eq!(cal_reply(&value).0, CalReply::Value(d(1.5)));
    let null = Json::obj().with("vrms", Json::Null);
    assert_eq!(cal_reply(&null).0, CalReply::Skip);
    assert_eq!(show(&cal_reply(&null).1), "{\"ok\":true}");
    assert_eq!(CalReply::Clear.value(), None);
    let got = Some(CalReply::Clear);
    assert_eq!(wait_cal_reply(false, false, got), got);
    assert_eq!(wait_cal_reply(false, false, None), None);
    assert_eq!(wait_cal_reply(true, false, got), Some(CalReply::Skip));
    assert_eq!(wait_cal_reply(false, true, got), Some(CalReply::Skip));
}

#[test]
fn a_cancel_at_either_prompt_saves_nothing() {
    let v = CalReply::Value(d(1.0));
    assert_eq!(CalStage::Output.answered(v, true), CalStage::Cancelled);
    let second = CalStage::Output.answered(v, false);
    assert_eq!(second, CalStage::Input { out_reply: v });
    assert_eq!(second.answered(CalReply::Skip, true), CalStage::Cancelled);
    assert_eq!(
        second.answered(CalReply::Skip, false),
        CalStage::Answered {
            out_reply: v,
            in_reply: CalReply::Skip
        }
    );
    assert_eq!(CalStage::Cancelled.answered(v, false), CalStage::Cancelled);
}

#[test]
fn a_run_moves_only_what_it_measured() {
    let mut cal = calibration();
    let states = save_readings(
        &mut cal,
        CalReadings {
            out_reply: CalReply::Skip,
            in_reply: CalReply::Skip,
            out_scaled: d(0.0),
            in_scaled: d(0.0),
            ref_dbfs: d(-12.0),
            tau: Some(entry()),
        },
    );
    assert_eq!(cal.ref_dbfs, d(-20.0), "nothing was measured");
    assert_eq!(cal.vrms_at_0dbfs_out, Some(d(4.0)));
    assert_eq!(cal.tau_history.len(), 1);
    assert_eq!(states.output, FieldState::Unchanged);
    assert_eq!(states.input, FieldState::Absent);
    let states = save_readings(
        &mut cal,
        CalReadings {
            out_reply: CalReply::Skip,
            in_reply: CalReply::Value(d(1.0)),
            out_scaled: d(0.0),
            in_scaled: d(2.5),
            ref_dbfs: d(-12.0),
            tau: None,
        },
    );
    assert_eq!(cal.ref_dbfs, d(-12.0));
    assert_eq!(cal.vrms_at_0dbfs_in, Some(d(2.5)));
    assert_eq!(cal.mic_sensitivity_dbfs_at_94db_spl, Some(d(-30.0)));
    assert_eq!(states.input.tag(), "measured");
}

fn config() -> Config {
    Config {
        output_channel: 0,
        input_channel: 1,
        output_port: Some("sticky".to_string()),
        input_port: Some("sticky_in".to_string()),
        reference_channel: None,
        reference_port: None,
        reference_output_channel: None,
        reference_output_port: None,
        report_dir: None,
        snapshot_spool_dir: None,
        dbu_ref_vrms: d(0.7746),
        server_enabled: false,
        backend: None,
        dmm_host: None,
        server_idle_timeout_secs: None,
        snapshot_ring_s: d(30.0),
        temperature_c: None,
        drive_max_dbfs: d(-12.0),
        device: 0,
    }
}

#[test]
fn a_calibration_plays_and_captures_on_its_own_channels() {
    let groups = CommandGroups { entries: vec![] };
    let cfg = config();
    let playback = vec!["p1".to_string(), "p2".to_string()];
    let capture = vec!["c1".to_string(), "c2".to_string()];
    let l = Launch {
        groups: &groups,
        running: &vec![],
        cfg_fault: &None,
        cfg: &cfg,
        playback: &playback,
        capture: &capture,
    };
    let p = calibrate(&l, &Json::obj()).ok().unwrap();
    assert_eq!((p.out_port.as_str(), p.in_port.as_str()), ("sticky", "c2"));
    assert_eq!(p.ref_dbfs, d(-12.0));
    assert_eq!(show(&calibrate_started(&p)), "{\"ok\":true,\"ref_dbfs\":-12}");
    let cmd = Json::obj()
        .with("output_channel", Json::Uint(1))
        .with("input_channel", Json::Uint(0))
        .with("ref_dbfs", Json::Int(-3));
    let p = calibrate(&l, &cmd).ok().unwrap();
    assert_eq!((p.out_port.as_str(), p.in_port.as_str()), ("p2", "c1"));
    assert_eq!(p.ref_dbfs, d(-12.0), "lowered to the ceiling");
    let far = Json::obj().with("input_channel", Json::Uint(7));
    assert!(calibrate(&l, &far).is_err());
    let wide = Json::obj().with("output_channel", Json::Uint(4_294_967_297));
    assert_eq!(channels_from(&wide, &cfg), (1, 1));

    let s = calibrate_spl(&l, &Json::obj(), &None).ok().unwrap();
    assert_eq!((s.in_port.as_str(), s.capture_s), ("c2", d(1.0)));
    let fault = Some("no engine".to_string());
    match calibrate_spl(&l, &far, &fault) {
        Err(e) => assert_eq!(show(&e), "{\"ok\":false,\"error\":\"no engine\"}"),
        Ok(_) => panic!("accepted"),
    }
}

#[test]
fn the_prompts_tell_what_was_captured() {
    let p = output_prompt(d(-12.0), "-12.0", None);
    assert_eq!(
        show(&p),
        "{\"step\":1,\"text\":\"Output cal \u{2014} measure DAC output Vrms with DMM (1 kHz @ \
         -12.0 dBFS). Enter reading, or press Enter to keep the stored value.\",\
         \"dmm_vrms\":null,\"ref_dbfs\":-12}"
    );
    let out = CalReply::Value(d(1.25));
    let looped = input_prompt(d(-15.0), "-15.0", d(2.0), None, out);
    assert_eq!(show(looped.get("dmm_vrms").unwrap()), "1.25");
    assert_eq!(show(looped.get("loopback").unwrap()), "true");
    assert!(show(&looped).contains("loopback detected (-15.0 dBFS captured)"));
    let open = input_prompt(d(-50.0), "-50.0", d(35.0), None, out);
    assert_eq!(show(open.get("dmm_vrms").unwrap()), "null");
    assert!(show(&open).contains("measure ADC input Vrms with DMM (captured -50.0 dBFS)"));
    let metered = input_prompt(d(-50.0), "-50.0", d(35.0), Some(d(0.5)), out);
    assert_eq!(show(metered.get("dmm_vrms").unwrap()), "0.5");
    assert_eq!(input_level(d(-50.0), d(-12.0)), d(-50.0));
    assert_eq!(input_level(d(-80.0), d(-12.0)), d(-12.0));
    assert!(show(&spl_prompt()).contains("94 dB SPL pistonphone"));
    assert_eq!(show(&spl_started("jack")), "{\"ok\":true,\"backend\":\"jack\"}");
}

#[test]
fn a_calibration_ends_with_done_or_error() {
    let ok = finish_cal("calibrate", "out1_in2", Json::obj(), &None);
    assert_eq!(ok.topic, "done");
    assert_eq!(show(&ok.last), "{\"cmd\":\"calibrate\",\"key\":\"out1_in2\"}");
    assert_eq!(show(&ok.cal_done), "{}");
    let failed = finish_cal(
        "calibrate",
        "out1_in2",
        Json::obj(),
        &Some("disk full".to_string()),
    );
    assert_eq!(failed.topic, "error");
    assert_eq!(
        show(&failed.last),
        "{\"cmd\":\"calibrate\",\"message\":\"save failed: disk full\"}"
    );
    assert_eq!(show(&failed.cal_done), "{\"error\":\"disk full\"}");

    let mut cal = calibration();
    save_sensitivity(&mut cal, d(-31.5));
    assert_eq!(cal.mic_sensitivity_dbfs_at_94db_spl, Some(d(-31.5)));
    assert_eq!(
        show(&spl_frame(&cal.key(), d(-31.5), "jack")),
        "{\"key\":\"out1_in2\",\"mic_sensitivity_dbfs_at_94db_spl\":-31.5,\"kind\":\"spl\",\
         \"backend\":\"jack\"}"
    );
    let outcome = tau_result(
        TauAttempt::Error {
            conditions: None,
            message: "timeout".to_string(),
        },
        d(24.0),
    );
    let groups = CommandGroups { entries: vec![] };
    let cfg = config();
    let names = vec!["p1".to_string(), "p2".to_string()];
    let l = Launch {
        groups: &groups,
        running: &vec![],
        cfg_fault: &None,
        cfg: &cfg,
        playback: &names,
        capture: &names,
    };
    let plan = calibrate(&l, &Json::obj()).ok().unwrap();
    let states = save_readings(
        &mut cal,
        CalReadings {
            out_reply: CalReply::Clear,
            in_reply: CalReply::Skip,
            out_scaled: d(0.0),
            in_scaled: d(0.0),
            ref_dbfs: d(-12.0),
            tau: None,
        },
    );
    let frame = calibrate_frame(&cal, states, &outcome, 48_000, Some(256), &plan);
    assert_eq!(show(frame.get("out_state").unwrap()), "\"absent\"");
    assert_eq!(show(frame.get("tau_sample_rate").unwrap()), "48000");
    assert_eq!(show(frame.get("tau_period_size").unwrap()), "256");
    assert_eq!(show(frame.get("tau_state").unwrap()), "\"error\"");
    assert_eq!(show(frame.get("output_port").unwrap()), "\"sticky\"");
}

fn curve(freqs: Vec<Json>, gains: Vec<Json>) -> Json {
    Json::obj()
        .with("freqs_hz", Json::array(freqs))
        .with("gain_db", Json::array(gains))
}

fn points(xs: &[f64]) -> Vec<Json> {
    xs.iter().map(|x| Json::float(d(*x))).collect()
}

const LIMITS: CurveLimits = CurveLimits { least: 2, most: 4 };

fn curve_error(cmd: &Json, shown: &str) -> String {
    let mut cal = calibration();
    match calibrate_mic_curve(cmd, &mut cal, LIMITS, "now") {
        Err(e) => {
            assert!(cal.mic_response.is_none(), "a refusal writes nothing");
            e.reply(shown)
                .get("error")
                .and_then(|v| v.as_str())
                .unwrap()
                .to_string()
        }
        Ok(_) => panic!("accepted"),
    }
}

#[test]
fn a_curve_keeps_its_pairs() {
    let cmd = curve(points(&[20.0, 1000.0, 20000.0]), points(&[-1.5, 0.0, 2.25]))
        .with("source_path", Json::string("mic.frd"));
    let mut cal = calibration();
    assert!(calibrate_mic_curve(&cmd, &mut cal, LIMITS, "now").is_ok());
    let r = cal.mic_response.as_ref().unwrap();
    assert_eq!(r.freqs_hz, vec![single(20.0), single(1000.0), single(20000.0)]);
    assert_eq!(r.gain_db, vec![single(-1.5), single(0.0), single(2.25)]);
    assert_eq!(r.source_path.as_deref(), Some("mic.frd"));
    assert_eq!(r.imported_at, "now");
    assert_eq!(cal.vrms_at_0dbfs_out, Some(d(4.0)), "the voltage stays");
    assert_eq!(
        show(&curve_saved(&cal, &None)),
        "{\"ok\":true,\"key\":\"out1_in2\",\"loaded\":3}"
    );
    assert_eq!(
        show(&curve_saved(&cal, &Some("disk full".to_string()))),
        "{\"ok\":false,\"error\":\"save failed: disk full\"}"
    );
    let snapshot = snapshot_from_cal(&Some(cal)).unwrap();
    assert_eq!(snapshot.mic_response.as_ref().unwrap().n_points, 3);
    let mut cal = calibration();
    cal.mic_response = Some(MicResponse {
        freqs_hz: vec![],
        gain_db: vec![],
        source_path: None,
        imported_at: "then".to_string(),
    });
    let clear = Json::obj().with("op", Json::string("clear"));
    assert!(calibrate_mic_curve(&clear, &mut cal, LIMITS, "now").is_ok());
    assert!(cal.mic_response.is_none());
    assert!(snapshot_from_cal(&None).is_none());
}

#[test]
fn an_invalid_element_refuses_the_whole_curve() {
    let bad_freq = curve(
        vec![Json::float(d(20.0)), Json::string("x")],
        points(&[0.0, 1.5]),
    );
    let text = curve_error(&bad_freq, "1.500");
    assert!(text.starts_with("mic curve not saved"), "{text}");
    assert!(text.contains("freqs_hz[1]"), "{text}");
    assert!(text.contains("gain_db[1] = 1.500 dB"), "{text}");
    assert!(text.contains("existing curve unchanged"), "{text}");
    let bad_gain = curve(points(&[20.0, 30.0]), vec![Json::Null, Json::Null]);
    let text = curve_error(&bad_gain, "20.000");
    assert!(text.contains("gain_db[0]"), "{text}");
    assert!(text.contains("freqs_hz[0] = 20.000 Hz"), "{text}");
    let overflow = curve(points(&[20.0, 1e300]), points(&[0.0, 0.0]));
    assert!(curve_error(&overflow, "0.000").contains("freqs_hz[1]"));
    match parse_curve(&bad_gain) {
        Err(_) => {}
        Ok(_) => panic!("accepted"),
    }
}

#[test]
fn a_curve_has_bounds() {
    assert_eq!(
        curve_error(&curve(points(&[20.0]), points(&[0.0])), ""),
        "curve too sparse: 1 < 2"
    );
    let five = [1.0, 2.0, 3.0, 4.0, 5.0];
    assert_eq!(
        curve_error(&curve(points(&five), points(&five)), ""),
        "curve too dense: 5 > 4"
    );
    assert_eq!(
        curve_error(&curve(points(&[20.0, 20.0]), points(&[0.0, 0.0])), ""),
        "freqs_hz must be strictly increasing and finite"
    );
    assert_eq!(
        curve_error(&curve(points(&[20.0, 30.0]), points(&[0.0])), ""),
        "calibrate_mic_curve set: missing/mismatched freqs_hz/gain_db                  \
         (freqs_hz: 2, gain_db: 1)"
    );
    assert_eq!(
        curve_error(&Json::obj().with("gain_db", Json::array(vec![])), ""),
        "calibrate_mic_curve set: missing/mismatched freqs_hz/gain_db                  \
         (freqs_hz: missing, gain_db: 0)"
    );
    assert_eq!(
        curve_error(&Json::obj().with("op", Json::string("merge")), ""),
        "calibrate_mic_curve: unknown op \"merge\", expected set/clear"
    );
}

#[test]
fn a_curve_names_its_entry_before_any_is_made() {
    let cfg = config();
    assert_eq!(curve_target(&Json::obj(), &cfg).ok().unwrap(), (0, 1));
    let bad = Json::obj()
        .with("op", Json::string("clear"))
        .with("input_channel", Json::Int(-1));
    match curve_target(&bad, &cfg) {
        Err(e) => assert!(show(&e).contains("mic curve not cleared")),
        Ok(_) => panic!("accepted"),
    }
}

fn result(pass: bool) -> TestResult {
    TestResult::new("T", pass, "detail".to_string(), "tol")
}

#[test]
fn hardware_tests_run_in_order_and_are_counted_apart() {
    let mut run = HardwareRun::new();
    let mic = MicCorrection {
        curve_loaded: false,
        enabled: true,
    };
    let mut order = vec![];
    while let Some(t) = run.next(true, false) {
        order.push(t);
        let frame = run.record(&result(order.len() % 2 == 1), mic, None);
        assert_eq!(frame.get("dmm").is_some(), order.len() > 6);
        assert_eq!(frame.get("mic_correction").is_some(), order.len() <= 6);
    }
    assert_eq!(order[0], HardwareTest::NoiseFloor);
    assert_eq!(order[5], HardwareTest::Repeatability);
    assert_eq!(order[8], HardwareTest::DmmFreqResponse);
    assert_eq!(order.len(), 9);
    assert_eq!(
        show(&run.done_frame(4)),
        "{\"cmd\":\"test_hardware\",\"tests_run\":6,\"tests_pass\":3,\"dmm_run\":3,\
         \"dmm_pass\":2,\"xruns\":4}"
    );
    assert!(HardwareRun::new().next(true, true).is_none());
    let mut plain = HardwareRun::new();
    let mut n = 0;
    while plain.next(false, false).is_some() {
        plain.record(&result(true), mic, Some(d(94.0)));
        n += 1;
    }
    assert_eq!(n, 6);
}

#[test]
fn a_dut_is_compared_after_the_prompt() {
    let mut run = DutRun::new();
    let mut tags = vec![];
    loop {
        match run.next(true, false) {
            DutStep::Run { test, bypass } => {
                if tags.is_empty() {
                    assert_eq!(test, DutTest::NoiseFloor);
                }
                assert_eq!(bypass, run.prompted);
                let frame = run.record(&result(true));
                tags.push(show(frame.get("tag").unwrap()));
            }
            DutStep::Prompt => run.prompt_answered(),
            DutStep::Finish => break,
        }
    }
    assert_eq!(tags.len(), 10);
    assert_eq!(tags[4], "\"dut\"");
    assert_eq!(tags[5], "\"bypass\"");
    assert_eq!(
        show(&run.done_frame(true, 0)),
        "{\"cmd\":\"test_dut\",\"tests_run\":10,\"compare\":true,\"xruns\":0}"
    );
    assert_eq!(DutRun::new().next(true, true), DutStep::Finish);
    let half = DutRun {
        tests_run: 5,
        prompted: false,
    };
    assert_eq!(half.next(false, false), DutStep::Finish);
    assert_eq!(half.next(true, false), DutStep::Prompt);
    assert!(prompt_over(false, true, false));
    assert!(!prompt_over(false, false, false));
    assert!(show(&compare_prompt()).contains("Bypass DUT and press Enter"));
    assert_eq!(show(&dut_reply()), "{\"ok\":true}");
}

#[test]
fn verdicts_keep_their_limits() {
    assert!(hw_noise_floor(d(-80.1), d(-95.0), "-80.1", "-95.0").pass);
    let r = hw_noise_floor(d(-80.0), d(-95.0), "-80.0", "-95.0");
    assert!(!r.pass);
    assert_eq!(r.detail, "-80.0 dBFS / -95.0 dBFS");

    let levels = linearity_levels();
    let measured: Vec<Option<Double>> = levels
        .iter()
        .map(|l| if *l == -30 { None } else { Some(d(*l as f64)) })
        .collect();
    let valid = valid_readings(&levels, &measured);
    assert_eq!(valid.len(), 6);
    let errors = vec![d(0.0), d(0.4), d(0.0), d(0.0), d(1.0)];
    let shown: Vec<String> = (0..5).map(|i| format!("{i}")).collect();
    let r = hw_level_linearity(&valid, &errors, &shown);
    assert!(r.pass);
    assert_eq!(
        r.detail,
        "[-42\u{2192}-36:0, -36\u{2192}-24:1, -24\u{2192}-18:2, -18\u{2192}-12:3, \
         -12\u{2192}-6:4]"
    );
    assert!(!hw_level_linearity(&valid, &vec![d(1.01)], &shown).pass);
    assert_eq!(step_tolerance(4, 5), d(1.5));
    assert_eq!(step_tolerance(3, 5), d(1.0));

    let r = hw_thd_floor(
        &vec![-40, -3],
        &vec![d(0.2), d(0.01)],
        &vec!["0.2000".to_string(), "0.0100".to_string()],
        "0.0100",
    );
    assert!(r.pass);
    assert_eq!(r.detail, "best 0.0100%  [-40:0.2000%, -3:0.0100%]");
    assert_eq!(f(least_of(&vec![])), f64::INFINITY);
    assert_eq!(worst_of(&vec![d(-1.0)]), d(0.0));
}

#[test]
fn responses_compare_with_one_kilohertz() {
    let rs = vec![
        FreqReading { freq_hz: 50, value: d(-20.5) },
        FreqReading { freq_hz: 1000, value: d(-20.0) },
    ];
    assert_eq!(reference_reading(&rs), d(-20.0));
    assert_eq!(reference_reading(&vec![rs[0]]), d(-20.5));
    let shown = vec!["-0.50".to_string(), "+0.00".to_string()];
    let r = hw_freq_response(&rs, &vec![d(0.5), d(0.0)], &shown, "0.50");
    assert!(r.pass);
    assert_eq!(
        r.detail,
        "max deviation 0.50 dB  [50Hz:-0.50dB, 1000Hz:+0.00dB]"
    );
    assert!(!hw_freq_response(&rs, &vec![d(1.0)], &shown, "1.00").pass);
    assert_eq!(
        hw_freq_response(&vec![], &vec![], &vec![], "").detail,
        "insufficient data"
    );
    assert!(!hw_channel_match(&None).pass);
    let close = Difference {
        level_db: d(0.1),
        thd_pct: d(0.001),
        level_shown: "0.100",
        thd_shown: "0.0010",
    };
    assert!(hw_channel_match(&Some(close)).pass);
    assert!(hw_repeatability(5, d(0.01), d(0.001), "0.0100", "0.001000").pass);
    assert!(!hw_repeatability(2, d(0.01), d(0.001), "a", "b").pass);
    assert!(!hw_dmm_absolute(&Err(NoCorroboration::MeterFailed)).pass);
    assert_eq!(
        hw_dmm_absolute(&Err(NoCorroboration::NoCalibration)).tolerance,
        "requires calibration"
    );
    let c = Corroboration {
        meter_shown: "100.000",
        predicted_shown: "100.500",
        error_pct: d(0.5),
        error_shown: "0.50",
    };
    assert!(hw_dmm_absolute(&Ok(c)).pass);
    assert!(!hw_dmm_tracking(&vec![d(0.1); 4], "0.10").pass);
    let r = hw_dmm_tracking(&vec![d(0.1); 5], "0.10");
    assert!(r.pass);
    assert_eq!(r.detail, "max error 0.10% over 5 points");
}

#[test]
fn a_dut_is_described() {
    assert_eq!(cal_dbu_str(true, "+4.0"), "+4.0 dBu");
    assert_eq!(cal_dbu_str(false, "-20.0"), "-20.0 dBFS");
    assert_eq!(
        dut_gain(&GainReading::CaptureFailed { error: "x" }).detail,
        "capture failed: x"
    );
    let g = dut_gain(&GainReading::Measured {
        gain_shown: "+6.0",
        reference: "a",
        measured: "b",
    });
    assert_eq!(g.detail, "+6.0 dB  (ref: a \u{2192} meas: b)");
    assert!(!dut_thd_vs_level(&vec![], "").pass);
    let t = dut_thd_vs_level(
        &vec![ThdAtDrive {
            drive: "-40.0 dBFS".to_string(),
            thd_shown: "0.0100".to_string(),
            gain_shown: "+6.0".to_string(),
        }],
        "0.0100",
    );
    assert_eq!(t.detail, "best 0.0100%  [-40.0 dBFS:0.0100%/+6.0dB]");
    assert_eq!(
        band_indices(&vec![d(49.9), d(50.0), d(20000.0), d(20000.1)]),
        vec![1, 2]
    );
}

#[test]
fn the_clip_search_stops_at_the_first_clipped_level() {
    let levels = clip_levels();
    assert_eq!((levels[0], levels[10]), (-30, 0));
    let mut s = ClipSearch::new();
    let clean = Some(ClipReading {
        thd_pct: d(1.0),
        clipping: false,
    });
    assert!(s.observe(-30, clean));
    assert!(s.observe(-27, None));
    assert!(!s.observe(
        -24,
        Some(ClipReading {
            thd_pct: d(1.01),
            clipping: false
        })
    ));
    assert_eq!((s.last_clean, s.clip_level), (Some(-30), Some(-24)));
    assert_eq!(
        s.result("-24.0 dBFS", "-30.0 dBFS").detail,
        "onset at -24.0 dBFS (last clean: -30.0 dBFS)"
    );
    let mut never = ClipSearch::new();
    assert!(!never.result("", "").pass);
    never.observe(0, clean);
    assert_eq!(
        never.result("", "+0.0 dBu").detail,
        "clean through +0.0 dBu (no clipping detected)"
    );
    let mut at_once = ClipSearch::new();
    at_once.observe(
        -30,
        Some(ClipReading {
            thd_pct: d(0.0),
            clipping: true,
        }),
    );
    assert_eq!(at_once.result("x", "").detail, "onset at x (last clean: ?)");
}
