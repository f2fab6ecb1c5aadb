use ac_daemon::checks::{
    new_record, sync_action, CheckSource, LoopbackRef, SessionChecks, SyncAction,
};
use ac_daemon::clock::now_ns;
use ac_daemon::config::Config;
use ac_daemon::double::{Double, Single};
use ac_daemon::echo::{quote_json, ECHO_LEN};
use ac_daemon::frames::{splice_peaks, Peak};
use ac_daemon::json::Json;
use ac_daemon::message::{frame_message, send_pub};
use ac_daemon::mode::Mode;
use ac_daemon::ports::{
    cached_playback_ports, ref_output_migration_warning, refresh_port_cache, resolve_input,
    resolve_output, resolve_output_by_channel, resolve_ref_input, resolve_ref_output, PortCache,
};
use ac_daemon::settings::{
    get_analysis_mode, get_band_weighting, get_time_integration, reset_leq, reset_loudness,
    set_analysis_mode, set_band_weighting, set_ioct_bpo, set_mic_correction_enabled,
    set_monitor_params, set_time_integration, Integration, MonitorParams, Settings, Weighting,
};
use ac_daemon::snapshot::SnapshotRingState;
use ac_daemon::spool::{
    clear_spool, fetch_reply, reset_spool_dir, snapshot, snapshot_delete, snapshot_failed,
    snapshot_fetch, snapshot_file_name, snapshot_list, snapshot_stored, SnapshotFault, Spool,
    SpoolEntry,
};
use ac_daemon::text::{
    dash_colons, decimal, decimal_fixed, is_no_later, join, signed_decimal,
};
use ac_daemon::wire::{
    finite_single, get_double, opt_nullable_u32, opt_u32_array, trailer_refusal, u32_value,
};

fn d(x: f64) -> Double {
    Double::new(x.to_bits())
}

fn show(j: &Json) -> String {
    match j {
        Json::Null => "null".to_string(),
        Json::Bool(b) => format!("{b}"),
        Json::Uint(n) => format!("{n}"),
        Json::Int(n) => format!("{n}"),
        Json::Decimal { text, .. } => text.clone(),
        Json::Float(x) => format!("{}", f64::from_bits(x.bits)),
        Json::Float32(x) => format!("{}", f32::from_bits(x.bits)),
        Json::Str(s) => format!("{s:?}"),
        Json::Arr(a) => format!("[{}]", a.iter().map(show).collect::<Vec<_>>().join(",")),
        Json::Obj(o) => format!(
            "{{{}}}",
            o.iter()
                .map(|(k, v)| format!("{k:?}:{}", show(v)))
                .collect::<Vec<_>>()
                .join(",")
        ),
    }
}

fn single(x: f32) -> Single {
    Single { bits: x.to_bits() }
}

#[test]
fn a_message_is_a_topic_a_space_and_json() {
    assert_eq!(frame_message("data", &b"{}".to_vec()), b"data {}".to_vec());
    let value: serde_json::Value = serde_json::from_str("{\"cmd\": \"plot\", \"n\": 3}").unwrap();
    assert_eq!(
        send_pub("data", &value),
        b"data {\"cmd\":\"plot\",\"n\":3}".to_vec()
    );
}

#[test]
fn texts_are_built_from_numbers() {
    assert_eq!(decimal(0), "0");
    assert_eq!(decimal(u64::MAX), "18446744073709551615");
    assert_eq!(signed_decimal(-42), "-42");
    assert_eq!(signed_decimal(i64::MIN), "-9223372036854775808");
    assert_eq!(decimal_fixed(7, 3), "007");
    assert_eq!(
        join(&vec!["a".to_string(), "b".to_string()], ", "),
        "a, b"
    );
    assert_eq!(dash_colons("03:04:05"), "03-04-05");
    assert!(is_no_later("2026-01-01", "2026-01-02"));
    assert!(!is_no_later("b", "a"));
}

#[test]
fn numbers_are_read_as_doubles() {
    let big = Json::obj()
        .with("u", Json::Uint(9_007_199_254_740_993))
        .with("i", Json::Int(-9_007_199_254_740_995));
    assert_eq!(get_double(&big, "u"), Some(d(9_007_199_254_740_992.0)));
    assert_eq!(get_double(&big, "i"), Some(d(-9_007_199_254_740_996.0)));
    assert_eq!(get_double(&big, "x"), None);
}

#[test]
fn doubles_narrow_like_the_hardware() {
    for x in [
        0.1,
        -2.5,
        1e-40,
        1e-46,
        1e300,
        16_777_217.0,
        3.4028235677973366e38,
        1.0 / 3.0,
    ] {
        let x: f64 = x;
        assert_eq!(d(x).narrow().bits, (x as f32).to_bits(), "{x}");
    }
    assert!(finite_single(&Json::float(d(1e300)), "x").is_err());
    assert!(d(0.1).lt(d(0.2)) && !d(f64::NAN).le(d(0.0)));
    assert!(d(-0.0).le(d(0.0)) && d(0.0).le(d(-0.0)));
}

#[test]
fn malformed_fields_are_named() {
    let cmd = Json::obj()
        .with("channels", Json::array(vec![Json::Uint(1), Json::Bool(true)]))
        .with("ref", Json::Null);
    match opt_u32_array(&cmd, "channels") {
        Err(e) => assert_eq!(
            e.refusal("generate not started", vec![("stimulus".to_string(), "silent".to_string())]),
            "generate not started \u{2014} channels[1] is not an integer from 0 to 4294967295\n         \
             received  true\n         stimulus  silent"
        ),
        Ok(_) => panic!("accepted"),
    }
    assert!(matches!(opt_nullable_u32(&cmd, "ref"), Ok(Some(None))));
    assert!(matches!(opt_nullable_u32(&cmd, "none"), Ok(None)));
}

#[test]
fn a_refusal_quotes_what_it_received() {
    let received = |v: Json| match u32_value(&v, "bpo") {
        Err(e) => e.received,
        Ok(n) => panic!("accepted {n}"),
    };
    assert_eq!(received(Json::string("third")), "\"third\"");
    assert_eq!(received(Json::Int(i64::MIN)), "-9223372036854775808");
    assert_eq!(received(Json::Int(-3)), "-3");
    assert_eq!(received(Json::Uint(u64::MAX)), "18446744073709551615");
    assert_eq!(received(Json::Decimal { value: d(2.5), text: "2.5".to_string() }), "2.5");
    assert_eq!(received(Json::Null), "null");
    assert_eq!(received(Json::array(vec![Json::Uint(3), Json::Bool(true)])), "[3,true]");
    assert_eq!(received(Json::obj().with("n", Json::Uint(3))), "{\"n\":3}");
    let long = received(Json::string(&"x".repeat(10_000)));
    assert_eq!(long.chars().count(), ECHO_LEN + 1);
    assert_eq!(long, format!("\"{}\u{2026}", "x".repeat(ECHO_LEN - 1)));
    let whole = received(Json::string(&"y".repeat(ECHO_LEN - 2)));
    assert_eq!(whole, format!("\"{}\"", "y".repeat(ECHO_LEN - 2)));
}

#[test]
fn quoted_text_is_json() {
    let controls: String = (0u8..=0x7f).map(char::from).collect();
    for s in ["", "plain", "a \"b\" \\ c", "tab\tline\n", "\u{3c4} \u{1f50a}", &controls] {
        let v = serde_json::Value::from(s);
        assert_eq!(quote_json(&Json::string(s)), v.to_string());
        let read: Option<serde_json::Value> = serde_json::from_str(&quote_json(&Json::string(s))).ok();
        assert_eq!(read, Some(v));
    }
    let nested = Json::obj()
        .with("a \"b\"", Json::array(vec![Json::Null, Json::Int(-7), Json::array(vec![])]))
        .with("c", Json::obj().with("d", Json::Bool(false)));
    assert_eq!(
        quote_json(&nested),
        "{\"a \\\"b\\\"\":[null,-7,[]],\"c\":{\"d\":false}}"
    );
}

#[test]
fn trailers_line_up_under_the_longest_key() {
    let pairs = vec![
        ("a".to_string(), "1".to_string()),
        ("longer".to_string(), "2".to_string()),
    ];
    assert_eq!(
        trailer_refusal("not saved", "why", &pairs),
        "not saved \u{2014} why\n         a       1\n         longer  2"
    );
}

fn settings() -> Settings {
    Settings {
        mode: Mode::Fft,
        cwt_sigma: single(12.0),
        cwt_n_scales: 512,
        ioct_bpo: None,
        weighting: Weighting::Off,
        integration: Integration::Off,
        leq_reset_request: false,
        loudness_reset_request: false,
        mic_correction_enabled: true,
        monitor: MonitorParams {
            interval: d(0.2),
            fft_n: 8192,
            lf_fft_n: 65536,
            crossover_hz: single(500.0),
            active: true,
        },
    }
}

fn mode(m: &str) -> Json {
    Json::obj().with("mode", Json::string(m))
}

#[test]
fn a_mode_is_taken_in_any_case_and_echoed_in_lower_case() {
    let mut s = settings();
    assert_eq!(
        show(&set_band_weighting(&mut s, &mode("A"))),
        "{\"ok\":true,\"mode\":\"a\"}"
    );
    assert_eq!(s.weighting, Weighting::A);
    assert_eq!(
        show(&set_band_weighting(&mut s, &mode("b\"x"))),
        "{\"ok\":false,\"error\":\"invalid mode \\\"b\\\\\\\"x\\\": expected off, a, c, or z\"}"
    );
    assert_eq!(s.weighting, Weighting::A, "a refusal changes nothing");
    assert_eq!(show(&get_band_weighting(&s)), "{\"ok\":true,\"mode\":\"a\"}");
    assert_eq!(
        show(&set_time_integration(&mut s, &mode("LEQ"))),
        "{\"ok\":true,\"mode\":\"leq\"}"
    );
    assert!(s.leq_reset_request);
    assert_eq!(show(&get_time_integration(&s)), "{\"ok\":true,\"mode\":\"leq\"}");
    assert_eq!(
        show(&set_time_integration(&mut s, &Json::obj())),
        "{\"ok\":false,\"error\":\"missing 'mode' field\"}"
    );
}

#[test]
fn live_settings_are_clamped_or_refused() {
    let mut s = settings();
    let cmd = mode("cwt")
        .with("sigma", Json::float(d(99.0)))
        .with("n_scales", Json::Uint(1));
    assert_eq!(
        show(&set_analysis_mode(&mut s, &cmd)),
        "{\"ok\":true,\"mode\":\"cwt\",\"sigma\":24,\"n_scales\":64}"
    );
    assert!(show(&set_analysis_mode(&mut s, &mode("CWT"))).contains("invalid mode 'CWT'"));
    assert_eq!(
        show(&get_analysis_mode(&s)),
        "{\"ok\":true,\"mode\":\"cwt\",\"sigma\":24,\"n_scales\":64}"
    );
    let bpo = |n: u64| Json::obj().with("bpo", Json::Uint(n));
    assert_eq!(show(&set_ioct_bpo(&mut s, &bpo(24))), "{\"ok\":true,\"bpo\":24}");
    assert_eq!(
        show(&set_ioct_bpo(&mut s, &bpo(4_294_967_299))),
        "{\"ok\":false,\"error\":\"invalid bpo 4294967299: expected 0, 1, 3, 6, 12, or 24\"}"
    );
    let named = Json::obj().with("bpo", Json::string("third"));
    assert_eq!(
        show(&set_ioct_bpo(&mut s, &named)),
        "{\"ok\":false,\"error\":\"invalid bpo \\\"third\\\": expected 0, 1, 3, 6, 12, or 24\"}"
    );
    assert_eq!(s.ioct_bpo, Some(24));
    assert_eq!(show(&set_ioct_bpo(&mut s, &bpo(0))), "{\"ok\":true,\"bpo\":0}");
    assert_eq!(s.ioct_bpo, None);
    reset_leq(&mut s);
    reset_loudness(&mut s);
    assert!(s.leq_reset_request && s.loudness_reset_request);
    let off = Json::obj().with("enabled", Json::Bool(false));
    assert_eq!(
        show(&set_mic_correction_enabled(&mut s, &off)),
        "{\"ok\":true,\"enabled\":false}"
    );
    let tune = Json::obj()
        .with("interval", Json::float(d(0.05)))
        .with("fft_n", Json::Uint(16384));
    assert_eq!(
        show(&set_monitor_params(&mut s, &tune)),
        "{\"ok\":true,\"interval\":0.05,\"fft_n\":16384,\"lf_fft_n\":65536,\"crossover_hz\":500}"
    );
    let wide = Json::obj().with("fft_n", Json::Uint(4_294_967_552));
    assert_eq!(
        show(&set_monitor_params(&mut s, &wide)),
        "{\"ok\":false,\"error\":\"fft_n must be power of 2 in [256, 131072]\"}"
    );
    s.monitor.active = false;
    assert_eq!(
        show(&set_monitor_params(&mut s, &tune)),
        "{\"ok\":false,\"error\":\"no active monitor\"}"
    );
}

fn config() -> Config {
    Config {
        output_channel: 0,
        input_channel: 1,
        output_port: None,
        input_port: Some("sticky".to_string()),
        reference_channel: None,
        reference_port: None,
        reference_output_channel: None,
        reference_output_port: None,
        report_dir: None,
        snapshot_spool_dir: None,
        dbu_ref_vrms: d(0.7746),
        server_enabled: false,
        backend: None,
        dmm_host: None,
        server_idle_timeout_secs: None,
        snapshot_ring_s: d(30.0),
        temperature_c: None,
        drive_max_dbfs: d(-12.0),
        device: 0,
    }
}

#[test]
fn ports_resolve_by_name_or_index_and_are_never_made_up() {
    let mut cfg = config();
    let ports = vec!["p1".to_string(), "p2".to_string()];
    assert_eq!(resolve_output(&cfg, &ports).unwrap(), "p1");
    assert_eq!(resolve_input(&cfg, &ports).unwrap(), "sticky");
    assert_eq!(resolve_output_by_channel(&cfg, &ports, 1).unwrap(), "p2");
    assert_eq!(
        resolve_output_by_channel(&cfg, &ports, 2).unwrap_err(),
        "playback channel 2 is out of range \u{2014} only 2 physical playback port(s) available: \
         p1, p2"
    );
    assert_eq!(
        resolve_output(&cfg, &vec![]).unwrap_err(),
        "no physical playback ports are available, so channel 0 cannot be resolved \u{2014} is \
         the audio server running?"
    );
    assert_eq!(resolve_ref_input(&cfg, &ports).unwrap(), None);
    assert_eq!(resolve_ref_output(&cfg, &ports).unwrap(), "p1");
    cfg.reference_port = Some("r".to_string());
    assert!(resolve_ref_input(&cfg, &ports)
        .unwrap_err()
        .starts_with("reference_port is set but reference_channel is not"));
    cfg.reference_channel = Some(1);
    assert_eq!(
        resolve_ref_input(&cfg, &ports).unwrap(),
        Some("r".to_string())
    );
    assert!(ref_output_migration_warning(&cfg).is_some());
    cfg.reference_output_channel = Some(1);
    assert_eq!(resolve_ref_output(&cfg, &ports).unwrap(), "p2");
    assert!(ref_output_migration_warning(&cfg).is_none());
}

#[test]
fn listed_ports_are_kept_until_refreshed() {
    let mut cache = PortCache {
        playback: None,
        capture: None,
    };
    let a = vec!["a".to_string()];
    let b = vec!["b".to_string()];
    assert_eq!(cached_playback_ports(&mut cache, &a), a);
    assert_eq!(cached_playback_ports(&mut cache, &b), a);
    refresh_port_cache(&mut cache, b.clone(), vec![]);
    assert_eq!(cached_playback_ports(&mut cache, &a), b);
}

fn entry(id: &str) -> SpoolEntry {
    SpoolEntry {
        path: format!("/spool/{id}.acsnap"),
        bytes: 10,
        sha256: id.to_string(),
        duration_s: d(1.5),
        channels: vec!["ref".to_string()],
    }
}

#[test]
fn snapshots_are_spooled_fetched_and_deleted() {
    let mut spool = Spool::new();
    let reply = snapshot_stored(&mut spool, entry("abc"));
    assert!(show(&reply).contains("\"id\":\"abc\""));
    snapshot_stored(&mut spool, entry("def"));
    assert!(show(&snapshot_list(&spool)).contains("\"def\""));
    let fetch = Json::obj()
        .with("id", Json::string("abc"))
        .with("offset", Json::Uint(4));
    let plan = snapshot_fetch(&spool, &fetch).unwrap_or_else(|_| panic!("unknown"));
    assert_eq!((plan.offset, plan.total_bytes), (4, 10));
    assert_eq!(plan.path, "/spool/abc.acsnap");
    let chunk = fetch_reply(&plan, &b"foobar".to_vec());
    assert!(show(&chunk).contains("Zm9vYmFy"));
    assert!(snapshot_fetch(&spool, &Json::obj()).is_err());
    let (gone, path) = snapshot_delete(&mut spool, &Json::obj().with("id", Json::string("abc")));
    assert_eq!(show(&gone), "{\"ok\":true}");
    assert_eq!(path.as_deref(), Some("/spool/abc.acsnap"));
    let (unknown, none) =
        snapshot_delete(&mut spool, &Json::obj().with("id", Json::string("abc")));
    assert!(show(&unknown).starts_with("{\"ok\":false"));
    assert!(none.is_none());
    assert_eq!(clear_spool(&mut spool), vec!["/spool/def.acsnap".to_string()]);
    snapshot_stored(&mut spool, entry("ghi"));
    reset_spool_dir(&mut spool);
    assert!(clear_spool(&mut spool).is_empty());
    assert_eq!(snapshot_file_name("abc"), "abc.acsnap");
    assert!(show(&snapshot_failed(&SnapshotFault::Write("full".to_string()))).contains("full"));
}

#[test]
fn a_snapshot_needs_a_running_ring_and_is_stamped() {
    match snapshot(None, "1.0", 1) {
        Err(e) => assert_eq!(
            show(&e),
            "{\"ok\":false,\"error\":\"no transfer_stream session running\"}"
        ),
        Ok(_) => panic!("accepted"),
    }
    let ring = SnapshotRingState::new(
        48_000,
        vec![0],
        10,
        vec![],
        "Z".to_string(),
        "fast".to_string(),
        vec![None],
    );
    let (meta, channels) = snapshot(Some(&ring), "1.0", 1).unwrap_or_else(|_| panic!("refused"));
    assert_eq!(channels.len(), 1);
    assert_eq!(&meta.captured_at_utc[4..5], "-");
    assert_eq!(&meta.captured_at_utc[10..11], "T");
    assert_eq!(meta.daemon_version, "1.0");
}

#[test]
fn a_new_record_carries_a_time_and_a_fresh_id() {
    let mut checks = SessionChecks::new();
    let loopback = LoopbackRef {
        key: "out1_in1".to_string(),
        output_port: "p".to_string(),
        input_port: "c".to_string(),
    };
    let r = new_record(&mut checks, 9, "plot", CheckSource::Probe, &loopback);
    assert_eq!(r.id, "9-1");
    assert_eq!(r.ran_at.len(), "2026-09-16T14:02:11.000Z".len());
    assert!(r.ran_at.ends_with('Z'));
    assert_eq!(now_ns(None), 0);
    assert_eq!(now_ns(Some(1_u128 << 64)), 0);
    assert_eq!(now_ns(Some(17)), 17);
    assert_eq!(sync_action(false, true), SyncAction::Leave);
}

#[test]
fn peaks_are_spliced_at_the_crossover_and_ranked() {
    let p = |f: f32, l: f32| Peak {
        freq_hz: single(f),
        dbfs: single(l),
    };
    let out = splice_peaks(
        &vec![p(100.0, -1.0), p(600.0, -30.0), p(500.0, -20.0)],
        &vec![p(60.0, -10.0), p(500.0, -2.0)],
        single(500.0),
    );
    let freqs: Vec<f32> = out.iter().map(|p| f32::from_bits(p.freq_hz.bits)).collect();
    assert_eq!(freqs, vec![60.0, 500.0, 600.0]);
}
