use ac_daemon::checks::{
    CheckSource, LayerVerdict, LoopbackRef, OnRecord, PersistErrorKind, SessionCheckRecord,
    SessionChecks, SyncEvent, VerdictKind,
};
use ac_daemon::config::Config;
use ac_daemon::double::Double;
use ac_daemon::gate::{
    live_block, voltage_check, Gate, LevelUnit, PairCal,
};
use ac_daemon::json::Json;
use ac_daemon::session::{
    reading_from_block, requested_layers, session_step, voltage_step, xruns_between, BlockReading,
    SessionPlan, SessionStep, VoltageStep,
};

fn d(x: f64) -> Double {
    Double::new(x.to_bits())
}

fn show(j: &Json) -> String {
    match j {
        Json::Null => "null".to_string(),
        Json::Bool(b) => format!("{b}"),
        Json::Uint(n) => format!("{n}"),
        Json::Int(n) => format!("{n}"),
        Json::Decimal { text, .. } => text.clone(),
        Json::Float(x) => format!("{}", f64::from_bits(x.bits)),
        Json::Float32(x) => format!("{}", f32::from_bits(x.bits)),
        Json::Str(s) => format!("{s:?}"),
        Json::Arr(a) => format!("[{}]", a.iter().map(show).collect::<Vec<_>>().join(",")),
        Json::Obj(o) => format!(
            "{{{}}}",
            o.iter()
                .map(|(k, v)| format!("{k:?}:{}", show(v)))
                .collect::<Vec<_>>()
                .join(",")
        ),
    }
}

#[test]
fn a_capture_error_is_kept_as_an_error_not_silence() {
    let r = reading_from_block(Err("device gone".to_string()), 0);
    assert_eq!(r.capture, Err("device gone".to_string()));
    assert!(r.tone.is_none());
    assert!(
        r.total_peak_dbfs.is_none(),
        "an error has no level that could read as silence"
    );
}

#[test]
fn a_block_without_a_tone_keeps_its_level() {
    let r = reading_from_block(
        Ok(BlockReading {
            n: 14_400,
            total_peak_dbfs: d(-240.0),
            tone: None,
        }),
        2,
    );
    assert!(r.capture.is_ok());
    assert!(r.tone.is_none());
    assert_eq!(r.xruns_delta, 2);
    assert_eq!(r.total_peak_dbfs, Some(d(-240.0)));
    let t = reading_from_block(
        Ok(BlockReading {
            n: 14_400,
            total_peak_dbfs: d(-40.0),
            tone: Some((d(-40.0), d(-120.0))),
        }),
        0,
    )
    .tone
    .expect("tone");
    assert_eq!(t.fundamental_dbfs, d(-40.0));
    assert_eq!(t.noise_floor_dbfs, d(-120.0));
    assert_eq!(t.n, 14_400);
}

fn verdict(kind: VerdictKind) -> LayerVerdict {
    let name = match kind {
        VerdictKind::Verified => "verified",
        VerdictKind::Refused => "refused",
        VerdictKind::Unverified => "unverified",
    };
    LayerVerdict {
        kind,
        body: Json::obj().with("state", Json::string(name)),
    }
}

fn check_record(id: &str, voltage: LayerVerdict) -> SessionCheckRecord {
    SessionCheckRecord {
        id: id.to_string(),
        ran_at: "2026-09-16T14:02:11.000Z".to_string(),
        source: CheckSource::Explicit,
        cmd: "session_check".to_string(),
        loopback: LoopbackRef {
            key: "out1_in1".to_string(),
            output_port: "system:playback_2".to_string(),
            input_port: "system:capture_2".to_string(),
        },
        voltage: Some(voltage),
        latency: None,
        persisted: None,
        persist_error: None,
    }
}

#[test]
fn a_synced_record_is_not_merged_again() {
    let mut checks = SessionChecks::new();
    let mut refused = check_record("1-1", verdict(VerdictKind::Refused));
    refused.persisted = Some(false);
    checks.push(refused);
    checks.push(check_record("1-2", verdict(VerdictKind::Verified)));
    assert_eq!(checks.unsynced().len(), 2);

    checks.mark_persisted();
    assert!(checks.unsynced().is_empty());

    checks.push(check_record("1-2", verdict(VerdictKind::Verified)));
    assert_eq!(checks.unsynced().len(), 1);
}

#[test]
fn ids_count_up_within_a_process() {
    let mut checks = SessionChecks::new();
    assert_eq!(checks.next_id(77), "77-1");
    assert_eq!(checks.next_id(77), "77-2");
}

fn unit(v: &str) -> Json {
    Json::obj().with("level_unit", Json::string(v))
}

#[test]
fn level_unit_parses_and_refuses_unknown_units() {
    assert!(matches!(
        LevelUnit::from_request(&Json::obj()),
        Ok(LevelUnit::Dbfs)
    ));
    assert!(matches!(
        LevelUnit::from_request(&unit("dbu")),
        Ok(LevelUnit::Dbu)
    ));
    assert!(LevelUnit::from_request(&unit("volts")).is_err());
}

#[test]
fn an_unknown_unit_is_named_in_the_refusal() {
    let e = match LevelUnit::from_request(&unit("volts")) {
        Err(e) => e,
        Ok(_) => panic!("accepted"),
    };
    assert_eq!(
        show(&e),
        "{\"ok\":false,\"error\":\"level_unit must be \\\"dbfs\\\", \\\"dbu\\\" or \\\"vrms\\\", got \\\"volts\\\"\"}"
    );
    assert!(!LevelUnit::Dbfs.physical());
    assert!(LevelUnit::Dbu.physical());
    assert_eq!(LevelUnit::Vrms.name(), "Vrms");
}

#[test]
fn layers_default_to_both_and_name_the_unknown_one() {
    assert!(matches!(requested_layers(&Json::obj()), Ok((true, true))));
    let only = Json::obj().with("layers", Json::array(vec![Json::string("voltage")]));
    assert!(matches!(requested_layers(&only), Ok((true, false))));
    let bad = Json::obj().with(
        "layers",
        Json::array(vec![Json::string("latency"), Json::string("gain")]),
    );
    assert_eq!(
        show(&requested_layers(&bad).err().unwrap()),
        "{\"ok\":false,\"error\":\"layers: unknown layer \\\"gain\\\"; use \\\"latency\\\", \\\"voltage\\\"\"}"
    );
    let no_list = Json::obj().with("layers", Json::string("voltage"));
    assert_eq!(
        show(&requested_layers(&no_list).err().unwrap()),
        "{\"ok\":false,\"error\":\"layers must be an array, got \\\"voltage\\\"\"}"
    );
    let mixed = Json::obj().with(
        "layers",
        Json::array(vec![
            Json::string("latency"),
            Json::array(vec![Json::Null, Json::Decimal { value: d(2.5), text: "2.5".to_string() }]),
            Json::string("gain"),
        ]),
    );
    assert!(show(&requested_layers(&mixed).err().unwrap()).contains("unknown layer [null,2.5];"));
}

#[test]
fn a_sync_tells_which_refusals_stand() {
    let mut checks = SessionChecks::new();
    let mut refused = check_record("1-1", verdict(VerdictKind::Refused));
    refused.persisted = Some(false);
    checks.push(refused);
    let failed = SyncEvent::WriteFailed { cause: "disk full".to_string() };
    assert!(matches!(checks.sync(&failed), OnRecord::AsRead));
    let error = checks.get("1-1").unwrap().persist_error.as_ref().unwrap();
    assert_eq!((error.kind, error.detail.as_str()), (PersistErrorKind::WriteFailed, "disk full"));
    let unread = SyncEvent::Unreadable { observation: "bad json".to_string() };
    match checks.sync(&unread) {
        OnRecord::Unreadable { observation } => assert_eq!(observation, "bad json"),
        other => panic!("unexpected {other:?}"),
    }
    assert_eq!(checks.unsynced().len(), 1);
    assert!(matches!(checks.sync(&SyncEvent::Written), OnRecord::Merged));
    assert!(checks.unsynced().is_empty());
    assert!(matches!(checks.sync(&SyncEvent::Unchanged), OnRecord::AsRead));
}

fn config() -> Config {
    Config {
        output_channel: 0,
        input_channel: 0,
        output_port: None,
        input_port: None,
        reference_channel: Some(1),
        reference_port: None,
        reference_output_channel: Some(1),
        reference_output_port: None,
        report_dir: None,
        snapshot_spool_dir: None,
        dbu_ref_vrms: d(0.7746),
        server_enabled: false,
        backend: None,
        dmm_host: None,
        server_idle_timeout_secs: None,
        snapshot_ring_s: d(30.0),
        temperature_c: None,
        drive_max_dbfs: d(-10.0),
        device: 0,
    }
}

fn names(prefix: &str) -> Vec<String> {
    (1..=2).map(|i| format!("{prefix}_{i}")).collect()
}

fn gate(level_unit: LevelUnit) -> Gate {
    Gate::plan(
        &config(),
        &names("playback"),
        &names("capture"),
        "generate",
        Some(PairCal {
            key: "out1_in1".to_string(),
            has_voltage: true,
        }),
        level_unit,
        false,
    )
}

#[test]
fn a_refused_scale_stops_a_physical_level_only() {
    let refused = verdict(VerdictKind::Refused);
    let physical = gate(LevelUnit::Dbu).run(None, &refused, &None, true);
    let frame = physical.refusal.expect("refused");
    assert_eq!(
        frame.get("message").and_then(|m| m.as_str()),
        Some("dBu level refused \u{2014} stored output calibration is stale; nothing was emitted")
    );
    assert!(physical.withhold_voltage);
    let digital = gate(LevelUnit::Dbfs).run(None, &refused, &None, true);
    assert!(digital.refusal.is_none());
    assert!(digital.withhold_voltage);
    let fine = gate(LevelUnit::Dbu).run(None, &verdict(VerdictKind::Verified), &None, true);
    assert!(fine.refusal.is_none());
    assert!(!fine.withhold_voltage);
}

#[test]
fn an_undecided_probe_does_not_clear_a_refusal() {
    let g = gate(LevelUnit::Dbfs);
    let rec = check_record("1-1", verdict(VerdictKind::Unverified));
    let body = Json::obj();
    let d1 = g.run(Some((&rec, &body)), &verdict(VerdictKind::Refused), &None, false);
    assert!(d1.withhold_voltage, "the earlier refusal stands");
    let pass = check_record("1-2", verdict(VerdictKind::Verified));
    let d2 = g.run(Some((&pass, &body)), &verdict(VerdictKind::Refused), &None, false);
    assert!(!d2.withhold_voltage, "a decisive probe replaces it");
}

#[test]
fn a_latency_verdict_completes_the_record() {
    let g = gate(LevelUnit::Dbfs);
    let step = g.finish_latency(
        Some(check_record("1-1", verdict(VerdictKind::Verified))),
        Some(verdict(VerdictKind::Refused)),
    );
    assert!(step.store && step.reach);
    assert!(step.record.unwrap().latency.unwrap().is_refused());
    let voltage_only = g.finish_latency(
        Some(check_record("1-1", verdict(VerdictKind::Verified))),
        None,
    );
    assert!(voltage_only.store && !voltage_only.reach);
    let mut empty = check_record("1-1", verdict(VerdictKind::Verified));
    empty.voltage = None;
    assert!(!g.finish_latency(Some(empty), None).store);
    assert!(g.finish_latency(None, None).record.is_none());
    let frame = g.latency_frame(
        &Json::obj(),
        &Some(verdict(VerdictKind::Verified)),
        &None,
    );
    assert_eq!(
        show(&frame),
        "{\"pair\":{\"key\":\"out1_in1\",\"voltage\":{\"state\":\"verified\"},\"latency\":null}}"
    );
}

#[test]
fn a_pair_without_a_scale_shows_no_voltage_check() {
    let v = verdict(VerdictKind::Verified);
    let pair = |has_voltage| {
        Some(PairCal {
            key: "k".to_string(),
            has_voltage,
        })
    };
    assert!(voltage_check(&pair(true), &v).is_some());
    assert!(voltage_check(&pair(false), &v).is_none());
    assert!(voltage_check(&None, &v).is_none());
    assert_eq!(
        show(&live_block(
            &v,
            &verdict(VerdictKind::Unverified),
            &Json::Null,
            &Json::Uint(3)
        )),
        "{\"voltage\":{\"state\":\"verified\"},\"latency\":{\"state\":\"unverified\"},\
         \"recorded\":{\"voltage\":null,\"latency\":3}}"
    );
}

#[test]
fn a_stopped_check_records_nothing() {
    let plan = SessionPlan {
        want_voltage: true,
        want_latency: true,
        loopback: ac_daemon::gate::configured_loopback(
            &config(),
            &names("playback"),
            &names("capture"),
        )
        .unwrap()
        .unwrap(),
        backend: "fake".to_string(),
        fake: true,
    };
    assert!(matches!(
        session_step(&plan, false, false, false),
        SessionStep::CheckVoltage
    ));
    assert!(matches!(
        session_step(&plan, true, false, true),
        SessionStep::Stopped
    ));
    assert!(matches!(
        session_step(&plan, true, false, false),
        SessionStep::MeasureLatency
    ));
    assert!(matches!(
        session_step(&plan, true, true, false),
        SessionStep::Finish
    ));
    assert!(matches!(
        voltage_step(false, None),
        VoltageStep::NotStored { .. }
    ));
    assert!(matches!(voltage_step(true, None), VoltageStep::Probe));
}

#[test]
fn an_xrun_counter_may_wrap() {
    assert_eq!(xruns_between(3, 5), 2);
    assert_eq!(xruns_between(u32::MAX, 1), 2);
}

#[test]
fn digital_silence_has_no_tone_and_the_floor_level() {
    let block = vec![0.0f32; 14_400];
    let peak = block.iter().fold(0.0f64, |m, &x| m.max(f64::from(x).abs()));
    let r = reading_from_block(
        Ok(BlockReading {
            n: block.len(),
            total_peak_dbfs: d(20.0 * peak.max(1e-12).log10()),
            tone: None,
        }),
        0,
    );
    assert!(r.tone.is_none());
    assert!(f64::from_bits(r.total_peak_dbfs.unwrap().bits) < -200.0);
}
