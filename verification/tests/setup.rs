use ac_daemon::config::Config;
use ac_daemon::double::Double;
use ac_daemon::json::Json;
use ac_daemon::setup::{
    commit, conclude, report_dir_to_probe, setup, setup_reply, validate_report_dir, SaveError,
    SetupDone, SetupFindings, SetupPlan, SpoolRejection, REPORT_DIR_NOT_ABSOLUTE,
};

fn d(x: f64) -> Double {
    Double::new(x.to_bits())
}

fn show(j: &Json) -> String {
    match j {
        Json::Null => "null".to_string(),
        Json::Bool(b) => format!("{b}"),
        Json::Uint(n) => format!("{n}"),
        Json::Int(n) => format!("{n}"),
        Json::Decimal { text, .. } => text.clone(),
        Json::Float(x) => format!("{}", f64::from_bits(x.bits)),
        Json::Float32(x) => format!("{}", f32::from_bits(x.bits)),
        Json::Str(s) => format!("{s:?}"),
        Json::Arr(a) => format!("[{}]", a.iter().map(show).collect::<Vec<_>>().join(",")),
        Json::Obj(o) => format!(
            "{{{}}}",
            o.iter()
                .map(|(k, v)| format!("{k:?}:{}", show(v)))
                .collect::<Vec<_>>()
                .join(",")
        ),
    }
}

fn config() -> Config {
    Config {
        output_channel: 2,
        input_channel: 3,
        output_port: Some("sys:out".to_string()),
        input_port: Some("sys:in".to_string()),
        reference_channel: Some(1),
        reference_port: Some("sys:ref".to_string()),
        reference_output_channel: Some(4),
        reference_output_port: Some("sys:refout".to_string()),
        report_dir: None,
        snapshot_spool_dir: None,
        dbu_ref_vrms: d(0.7746),
        server_enabled: false,
        backend: None,
        dmm_host: Some("meter".to_string()),
        server_idle_timeout_secs: Some(60),
        snapshot_ring_s: d(30.0),
        temperature_c: Some(d(20.0)),
        drive_max_dbfs: d(-10.0),
        device: 0,
    }
}

fn found() -> SetupFindings {
    SetupFindings {
        report_probe: Ok(()),
        spool: Ok("/spool/leaf".to_string()),
        backend: Ok("jack".to_string()),
    }
}

fn update(u: Json) -> Json {
    Json::obj().with("update", u)
}

fn error(r: Result<ac_daemon::setup::SetupPlan, Json>) -> Json {
    match r {
        Err(e) => e,
        Ok(_) => panic!("accepted"),
    }
}

#[test]
fn a_missing_update_is_refused() {
    assert_eq!(
        show(&error(setup(&Json::obj(), &config(), &found()))),
        "{\"ok\":false,\"error\":\"missing 'update' field\"}"
    );
}

#[test]
fn an_empty_update_reads_and_saves_nothing() {
    let p = setup(&update(Json::obj()), &config(), &found()).ok().unwrap();
    assert!(!p.save);
    assert_eq!(p.cfg.output_port.as_deref(), Some("sys:out"));
    assert_eq!(p.cfg.output_channel, 2);
}

#[test]
fn a_channel_drops_the_sticky_port_of_its_own_leg() {
    let u = Json::obj().with("output_channel", Json::Uint(7));
    let p = setup(&update(u), &config(), &found()).ok().unwrap();
    assert!(p.save);
    assert_eq!(p.cfg.output_channel, 7);
    assert_eq!(p.cfg.output_port, None);
    assert_eq!(p.cfg.input_port.as_deref(), Some("sys:in"));
    assert_eq!(p.cfg.reference_port.as_deref(), Some("sys:ref"));

    let u = Json::obj().with("reference_channel", Json::Null);
    let p = setup(&update(u), &config(), &found()).ok().unwrap();
    assert_eq!(p.cfg.reference_channel, None);
    assert_eq!(p.cfg.reference_port, None);
    assert_eq!(p.cfg.reference_output_channel, Some(4));
    assert_eq!(p.cfg.reference_output_port.as_deref(), Some("sys:refout"));
}

#[test]
fn one_malformed_channel_refuses_the_whole_update() {
    let u = Json::obj()
        .with("output_channel", Json::Uint(7))
        .with("input_channel", Json::Uint(4_294_967_296));
    let e = error(setup(&update(u), &config(), &found()));
    let text = e.get("error").and_then(|v| v.as_str()).unwrap().to_string();
    assert!(text.starts_with("setup rejected"), "{text}");
    assert!(text.contains("input_channel"), "{text}");
    assert!(text.contains("4294967296"), "{text}");
    assert!(text.contains("unchanged"), "{text}");
}

#[test]
fn the_report_directory_is_checked_first() {
    let ok: Result<(), String> = Ok(());
    assert_eq!(
        validate_report_dir("reports", &ok),
        Err(REPORT_DIR_NOT_ABSOLUTE.to_string())
    );
    assert_eq!(
        validate_report_dir("", &ok),
        Err(REPORT_DIR_NOT_ABSOLUTE.to_string())
    );
    assert_eq!(validate_report_dir("/srv/reports", &ok), Ok(()));
    let denied: Result<(), String> = Err("Permission denied (os error 13)".to_string());
    assert_eq!(
        validate_report_dir("/srv/reports", &denied),
        Err("Permission denied (os error 13)".to_string())
    );

    let cmd = update(
        Json::obj()
            .with("report_dir", Json::string("~/reports"))
            .with("input_channel", Json::Int(-1)),
    );
    assert_eq!(report_dir_to_probe(&cmd), Some("~/reports".to_string()));
    assert_eq!(
        show(&error(setup(&cmd, &config(), &found()))),
        "{\"ok\":false,\"error\":\"report-dir ~/reports: must be an absolute path on the daemon \
         host \u{2014} setting not changed\",\"refused\":{\"key\":\"report_dir\",\
         \"path\":\"~/reports\",\"reason\":\"must be an absolute path on the daemon host\"}}"
    );
    assert_eq!(report_dir_to_probe(&update(Json::obj())), None);
}

#[test]
fn a_refused_spool_names_the_allowed_root() {
    let mut f = found();
    f.spool = Err(SpoolRejection {
        message: "spool refused".to_string(),
        requested: "/etc".to_string(),
        reason: "outside".to_string(),
        allowed: "/spool".to_string(),
    });
    let cmd = update(Json::obj().with("snapshot_spool_dir", Json::string("/etc")));
    assert_eq!(
        show(&error(setup(&cmd, &config(), &f))),
        "{\"ok\":false,\"error\":\"spool refused\",\"refused\":{\"key\":\"snapshot_spool_dir\",\
         \"path\":\"/etc\",\"reason\":\"outside\",\"allowed_root\":\"/spool\"}}"
    );
    let taken = setup(&cmd, &config(), &found()).ok().unwrap();
    assert_eq!(taken.cfg.snapshot_spool_dir.as_deref(), Some("/spool/leaf"));
    let cleared = update(Json::obj().with("snapshot_spool_dir", Json::Null));
    let p = setup(&cleared, &config(), &f).ok().unwrap();
    assert_eq!(p.cfg.snapshot_spool_dir, None);
}

#[test]
fn the_backend_is_stored_by_its_canonical_name() {
    let cmd = update(Json::obj().with("backend", Json::string("JACK")));
    let p = setup(&cmd, &config(), &found()).ok().unwrap();
    assert_eq!(p.cfg.backend.as_deref(), Some("jack"));
    let mut f = found();
    f.backend = Err("unknown backend".to_string());
    assert_eq!(
        show(&error(setup(&cmd, &config(), &f))),
        "{\"ok\":false,\"error\":\"unknown backend\"}"
    );
    let odd = update(Json::obj().with("backend", Json::Uint(1)));
    assert_eq!(
        show(&error(setup(&odd, &config(), &found()))),
        "{\"ok\":false,\"error\":\"backend must be jack, cpal, fake, or null\"}"
    );
}

#[test]
fn plain_settings_follow_their_own_rules() {
    let u = Json::obj()
        .with("server_idle_timeout_secs", Json::Uint(0))
        .with("snapshot_ring_s", Json::float(d(-1.0)))
        .with("temperature_c", Json::Null)
        .with("dmm_host", Json::Null)
        .with("server_enabled", Json::Bool(true))
        .with("dbu_ref_vrms", Json::float(d(1.0)));
    let p = setup(&update(u), &config(), &found()).ok().unwrap();
    assert_eq!(p.cfg.server_idle_timeout_secs, None);
    assert_eq!(p.cfg.snapshot_ring_s, d(30.0));
    assert_eq!(p.cfg.temperature_c, None);
    assert_eq!(p.cfg.dmm_host, None);
    assert!(p.cfg.server_enabled);
    assert_eq!(p.cfg.dbu_ref_vrms, d(1.0));
    let u = Json::obj()
        .with("server_idle_timeout_secs", Json::Uint(90))
        .with("snapshot_ring_s", Json::Uint(5))
        .with("temperature_c", Json::Uint(23));
    let p = setup(&update(u), &config(), &found()).ok().unwrap();
    assert_eq!(p.cfg.server_idle_timeout_secs, Some(90));
    assert_eq!(p.cfg.snapshot_ring_s, d(5.0));
    assert_eq!(p.cfg.temperature_c, Some(d(23.0)));
}

#[test]
fn a_failed_save_leaves_the_configuration() {
    let mut cfg = config();
    let mut new = config();
    new.output_channel = 9;
    let e = commit(
        &mut cfg,
        Err(SaveError::Unreadable {
            path: "/cfg.json".to_string(),
            cause: "bad json".to_string(),
        }),
    )
    .err()
    .unwrap();
    assert_eq!(cfg.output_channel, 2);
    assert_eq!(
        e.get("error").and_then(|v| v.as_str()),
        Some(
            "setup not saved \u{2014} existing configuration is unreadable\n         file   \
             /cfg.json\n         cause  bad json\n         data   existing file preserved"
        )
    );
    let e = commit(
        &mut cfg,
        Err(SaveError::Write {
            path: "/cfg.json".to_string(),
            cause: "disk full".to_string(),
        }),
    )
    .err()
    .unwrap();
    assert_eq!(
        e.get("error").and_then(|v| v.as_str()),
        Some(
            "setup not saved \u{2014} configuration unchanged\n         file   /cfg.json\n         \
             cause  disk full"
        )
    );
    assert!(commit(&mut cfg, Ok(new)).is_ok());
    assert_eq!(cfg.output_channel, 9);
}

#[test]
fn the_reply_stands_beside_the_configuration() {
    let read = SetupDone { cfg: config(), saved: false };
    assert_eq!(
        show(&setup_reply(&read, Json::obj(), d(-3.0), "/cfg.json", &Ok(()))),
        "{\"ok\":true,\"config\":{},\"max_dbfs\":-3}"
    );
    let mut archived = config();
    archived.report_dir = Some("/reports".to_string());
    let done = SetupDone { cfg: archived, saved: true };
    assert_eq!(
        show(&setup_reply(&done, Json::obj(), d(-3.0), "/cfg.json", &Err("gone".to_string()))),
        "{\"ok\":true,\"config\":{},\"max_dbfs\":-3,\"saved\":\"/cfg.json\",\
         \"report_dir_status\":{\"writable\":false,\"error\":\"gone\"}}"
    );
}

#[test]
fn a_save_is_reported_only_after_it_was_committed() {
    let planned = |save: bool| {
        let mut cfg = config();
        cfg.output_channel = 9;
        SetupPlan { cfg, save }
    };
    let mut live = config();
    let read = conclude(&mut live, planned(false), None).ok().unwrap();
    assert!(!read.saved);
    assert_eq!(live.output_channel, 2);
    let failed = SaveError::Write { path: "/cfg.json".to_string(), cause: "full".to_string() };
    let e = conclude(&mut live, planned(true), Some(Err(failed))).err().unwrap();
    assert!(show(&e).contains("setup not saved"));
    assert_eq!(live.output_channel, 2);
    let mut stored = config();
    stored.output_channel = 7;
    let done = conclude(&mut live, planned(true), Some(Ok(stored))).ok().unwrap();
    assert!(done.saved);
    assert_eq!((live.output_channel, done.cfg.output_channel), (7, 7));
}
