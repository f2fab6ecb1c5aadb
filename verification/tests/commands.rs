use ac_daemon::admin::{
    backends_to_sample, calibration_target, devices, dmm_read, dmm_target, get_calibration,
    list_calibrations, quit, server_connections, server_disable, server_enable, status, stop,
    tau_history_with_live_check, BackendStatus, Identity, ListenMode, StoredCalibration,
};
use ac_daemon::busy::{check_busy, CommandGroups, Group};
use ac_daemon::config::Config;
use ac_daemon::double::Double;
use ac_daemon::emission::{
    generate, generate_pink, generate_started, sweep_continues, sweep_frequency,
    sweep_frequency_started, sweep_level, sweep_level_started, EmissionLimits,
};
use ac_daemon::gate::PairCal;
use ac_daemon::json::Json;
use ac_daemon::launch::Launch;
use ac_daemon::monitor::{monitor_spectrum, monitor_started};
use ac_daemon::plot::{
    frequency_steps, hold_secs, level_steps, plot, plot_ir, plot_ir_started, plot_level,
    plot_level_started, plot_started,
};
use ac_daemon::selftest::{test_dut, test_hardware};
use ac_daemon::session::session_check;
use ac_daemon::settings::MonitorParams;
use ac_daemon::worker::{done_frame, error_frame};

fn d(x: f64) -> Double {
    Double::new(x.to_bits())
}

fn show(j: &Json) -> String {
    match j {
        Json::Null => "null".to_string(),
        Json::Bool(b) => format!("{b}"),
        Json::Uint(n) => format!("{n}"),
        Json::Int(n) => format!("{n}"),
        Json::Decimal { text, .. } => text.clone(),
        Json::Float(x) => format!("{}", f64::from_bits(x.bits)),
        Json::Float32(x) => format!("{}", f32::from_bits(x.bits)),
        Json::Str(s) => format!("{s:?}"),
        Json::Arr(a) => format!("[{}]", a.iter().map(show).collect::<Vec<_>>().join(",")),
        Json::Obj(o) => format!(
            "{{{}}}",
            o.iter()
                .map(|(k, v)| format!("{k:?}:{}", show(v)))
                .collect::<Vec<_>>()
                .join(",")
        ),
    }
}

fn config() -> Config {
    Config {
        output_channel: 0,
        input_channel: 1,
        output_port: None,
        input_port: None,
        reference_channel: None,
        reference_port: None,
        reference_output_channel: None,
        reference_output_port: None,
        report_dir: None,
        snapshot_spool_dir: None,
        dbu_ref_vrms: d(0.7746),
        server_enabled: false,
        backend: None,
        dmm_host: None,
        server_idle_timeout_secs: None,
        snapshot_ring_s: d(30.0),
        temperature_c: None,
        drive_max_dbfs: d(-12.0),
        device: 0,
    }
}

fn groups() -> CommandGroups {
    CommandGroups {
        entries: vec![
            ("generate".to_string(), Group::Shared(1)),
            ("generate_pink".to_string(), Group::Shared(1)),
            ("sweep_level".to_string(), Group::Shared(1)),
            ("sweep_frequency".to_string(), Group::Shared(1)),
            ("monitor_spectrum".to_string(), Group::Shared(2)),
            ("plot".to_string(), Group::Exclusive),
            ("plot_level".to_string(), Group::Exclusive),
            ("plot_ir".to_string(), Group::Exclusive),
            ("test_hardware".to_string(), Group::Exclusive),
            ("test_dut".to_string(), Group::Exclusive),
        ],
    }
}

fn strings(xs: &[&str]) -> Vec<String> {
    xs.iter().map(|x| x.to_string()).collect()
}

struct Rig {
    groups: CommandGroups,
    running: Vec<String>,
    cfg_fault: Option<String>,
    cfg: Config,
    playback: Vec<String>,
    capture: Vec<String>,
}

fn rig() -> Rig {
    Rig {
        groups: groups(),
        running: vec![],
        cfg_fault: None,
        cfg: config(),
        playback: strings(&["p1", "p2", "p3"]),
        capture: strings(&["c1", "c2"]),
    }
}

impl Rig {
    fn launch(&self) -> Launch<'_> {
        Launch {
            groups: &self.groups,
            running: &self.running,
            cfg_fault: &self.cfg_fault,
            cfg: &self.cfg,
            playback: &self.playback,
            capture: &self.capture,
        }
    }
}

fn limits() -> EmissionLimits {
    EmissionLimits {
        default_dbfs: d(-20.0),
        ramp_start_dbfs: d(-40.0),
        ramp_stop_dbfs: d(-10.0),
        max_dbfs: d(-3.0),
        refusal: "level above the maximum".to_string(),
    }
}

fn err<T>(r: Result<T, Json>) -> String {
    match r {
        Err(e) => show(&e),
        Ok(_) => panic!("accepted"),
    }
}

#[test]
fn an_exclusive_worker_blocks_all_and_a_group_blocks_itself() {
    let g = groups();
    assert_eq!(
        check_busy(&g, &strings(&["plot"]), "generate"),
        Some("busy: plot running \u{2014} send stop first".to_string())
    );
    assert_eq!(check_busy(&g, &strings(&["monitor_spectrum"]), "generate"), None);
    assert!(check_busy(&g, &strings(&["generate"]), "generate_pink").is_some());
    assert!(check_busy(&g, &strings(&["monitor_spectrum"]), "plot").is_some());
    assert_eq!(check_busy(&g, &strings(&["plot"]), "status"), None);
    assert_eq!(check_busy(&g, &strings(&["unlisted"]), "generate"), None);
    assert!(check_busy(&g, &strings(&["unlisted"]), "plot").is_some());
}

#[test]
fn a_session_check_quotes_the_layer_it_does_not_know() {
    let mut rig = rig();
    rig.cfg.reference_channel = Some(1);
    let ask = |rig: &Rig, cmd: &Json, selected: Option<&str>| {
        session_check(
            &rig.groups,
            &rig.running,
            &rig.cfg_fault,
            cmd,
            &None,
            &rig.cfg,
            &rig.playback,
            &rig.capture,
            false,
            "jack",
            &selected.map(str::to_string),
        )
    };
    let layers = |v: Json| Json::obj().with("layers", v);
    let bad = layers(Json::array(vec![Json::string("voltage"), Json::Uint(3)]));
    assert_eq!(
        err(ask(&rig, &bad, Some("jack"))),
        "{\"ok\":false,\"error\":\"layers: unknown layer 3; use \\\"latency\\\", \\\"voltage\\\"\"}"
    );
    let plain = layers(Json::Decimal { value: d(1e30), text: "1e30".to_string() });
    assert_eq!(
        err(ask(&rig, &plain, Some("jack"))),
        "{\"ok\":false,\"error\":\"layers must be an array, got 1e30\"}"
    );
    rig.cfg_fault = Some("config unreadable".to_string());
    assert!(err(ask(&rig, &bad, Some("jack"))).contains("config unreadable"));
    rig.cfg_fault = None;
    let voltage = layers(Json::array(vec![Json::string("voltage")]));
    let refused = err(ask(&rig, &voltage, None));
    assert!(refused.contains("\"refusal_record\":\"ok\""), "{refused}");
    let plan = ask(&rig, &voltage, Some("fake")).ok().unwrap();
    assert!(plan.want_voltage && !plan.want_latency && plan.fake);
}

#[test]
fn generate_resolves_its_channels_and_defaults() {
    let rig = rig();
    let cmd = Json::obj().with(
        "channels",
        Json::array(vec![Json::Uint(2), Json::Uint(2), Json::Uint(0)]),
    );
    let p = generate(&rig.launch(), &cmd, Ok(None), &limits()).ok().unwrap();
    assert_eq!(p.out_ports, strings(&["p3", "p1"]));
    assert_eq!(p.freq_hz, Some(d(1000.0)));
    assert_eq!(p.level_dbfs, d(-20.0));
    let reply = generate_started(&p, d(-3.0), &Ok("fake".to_string()));
    assert_eq!(show(reply.get("out_ports").unwrap()), "[\"p3\",\"p1\"]");
    assert_eq!(show(reply.get("level_dbfs").unwrap()), "-20");
    assert_eq!(show(reply.get("max_dbfs").unwrap()), "-3");
    assert_eq!(show(reply.get("backend").unwrap()), "\"fake\"");
    let pink = generate_pink(&rig.launch(), &Json::obj(), Ok(None), &limits())
        .ok()
        .unwrap();
    assert!(pink.freq_hz.is_none());
    assert_eq!(pink.out_ports, strings(&["p1"]));
}

#[test]
fn a_level_above_the_maximum_is_refused_and_never_lowered() {
    let rig = rig();
    let at = |x: f64| Json::obj().with("level_dbfs", Json::float(d(x)));
    assert!(generate(&rig.launch(), &at(-3.0), Ok(None), &limits()).is_ok());
    assert_eq!(
        err(generate(&rig.launch(), &at(-2.9), Ok(None), &limits())),
        "{\"ok\":false,\"error\":\"level above the maximum\"}"
    );
    let ramp = Json::obj()
        .with("freq_hz", Json::Uint(1000))
        .with("stop_dbfs", Json::Uint(0));
    assert_eq!(
        err(sweep_level(&rig.launch(), &ramp, Ok(None), &limits())),
        "{\"ok\":false,\"error\":\"level above the maximum\"}"
    );
    assert!(sweep_frequency(&rig.launch(), &at(1.0), Ok(None), &limits()).is_err());
}

#[test]
fn refusals_come_in_order() {
    let mut rig = rig();
    rig.running = strings(&["plot"]);
    rig.cfg_fault = Some("config unreadable".to_string());
    let cmd = Json::obj()
        .with("level_dbfs", Json::Uint(0))
        .with("level_unit", Json::string("dbu"));
    let broken = || Err::<Option<PairCal>, String>("calibration unreadable".to_string());
    assert!(err(generate(&rig.launch(), &cmd, broken(), &limits())).contains("busy: plot"));
    rig.running.clear();
    assert!(err(generate(&rig.launch(), &cmd, broken(), &limits())).contains("config unreadable"));
    rig.cfg_fault = None;
    assert!(err(generate(&rig.launch(), &cmd, broken(), &limits())).contains("maximum"));
    let cmd = Json::obj().with("level_unit", Json::string("dbu"));
    assert!(
        err(generate(&rig.launch(), &cmd, broken(), &limits())).contains("calibration unreadable")
    );
    let cmd = Json::obj().with("level_unit", Json::Uint(3));
    assert_eq!(
        err(generate(&rig.launch(), &cmd, broken(), &limits())),
        "{\"ok\":false,\"error\":\"level_unit must be \\\"dbfs\\\", \\\"dbu\\\" or \\\"vrms\\\", got 3\"}"
    );
    let digital = Json::obj();
    assert!(generate(&rig.launch(), &digital, broken(), &limits()).is_ok());
    rig.playback.clear();
    assert!(err(generate(&rig.launch(), &digital, broken(), &limits())).contains("playback"));
}

#[test]
fn a_generator_without_an_engine_is_refused() {
    let rig = rig();
    let none = Err("no audio backend".to_string());
    let refused = "{\"ok\":false,\"error\":\"no audio backend\"}";
    let p = generate(&rig.launch(), &Json::obj(), Ok(None), &limits()).ok().unwrap();
    assert_eq!(show(&generate_started(&p, d(-3.0), &none)), refused);
    let cmd = Json::obj().with("freq_hz", Json::Uint(1000));
    let p = sweep_level(&rig.launch(), &cmd, Ok(None), &limits()).ok().unwrap();
    assert_eq!(show(&sweep_level_started(&p, d(-3.0), &none)), refused);
    let p = sweep_frequency(&rig.launch(), &cmd, Ok(None), &limits()).ok().unwrap();
    assert_eq!(show(&sweep_frequency_started(&p, d(-3.0), &none)), refused);
}

#[test]
fn sweeps_name_what_they_hold_fixed() {
    let rig = rig();
    assert_eq!(
        err(sweep_level(&rig.launch(), &Json::obj(), Ok(None), &limits())),
        "{\"ok\":false,\"error\":\"missing freq_hz\"}"
    );
    let cmd = Json::obj().with("freq_hz", Json::Uint(440));
    let p = sweep_level(&rig.launch(), &cmd, Ok(None), &limits()).ok().unwrap();
    assert_eq!((p.start, p.stop), (d(-40.0), d(-10.0)));
    assert_eq!((p.fixed, p.duration), (d(440.0), d(1.0)));
    let reply = sweep_level_started(&p, d(-3.0), &Ok("fake".to_string()));
    assert_eq!(show(reply.get("start_dbfs").unwrap()), "-40");
    assert_eq!(show(reply.get("out_port").unwrap()), "\"p1\"");
    let q = sweep_frequency(&rig.launch(), &Json::obj(), Ok(None), &limits())
        .ok()
        .unwrap();
    assert_eq!((q.start, q.stop, q.fixed), (d(20.0), d(20000.0), d(-20.0)));
    let reply = sweep_frequency_started(&q, d(-3.0), &Ok("fake".to_string()));
    assert_eq!(show(reply.get("level_dbfs").unwrap()), "-20");
    assert!(sweep_continues(false, d(0.5), d(1.0)));
    assert!(!sweep_continues(false, d(1.0), d(1.0)));
    assert!(!sweep_continues(true, d(0.5), d(1.0)));
}

#[test]
fn a_plot_is_lowered_to_the_ceiling() {
    let rig = rig();
    let p = plot(&rig.launch(), &Json::obj()).ok().unwrap();
    assert_eq!(p.level_dbfs, d(-12.0), "the default -10 is above the ceiling");
    assert_eq!((p.start_hz, p.stop_hz, p.ppd), (d(20.0), d(20000.0), 10));
    assert!(p.bpo.is_none());
    assert_eq!(
        show(&plot_started(&p)),
        "{\"ok\":true,\"out_port\":\"p1\",\"in_port\":\"c2\",\"level_dbfs\":-12}"
    );
    let quiet = Json::obj()
        .with("level_dbfs", Json::Int(-30))
        .with("bpo", Json::Uint(3));
    let p = plot(&rig.launch(), &quiet).ok().unwrap();
    assert_eq!(p.level_dbfs, d(-30.0));
    assert_eq!(p.bpo, Some(3));

    let p = plot_level(&rig.launch(), &Json::obj()).ok().unwrap();
    assert_eq!((p.start_dbfs, p.stop_dbfs, p.steps), (d(-40.0), d(0.0), 26));
    assert_eq!(
        show(&plot_level_started(&p)),
        "{\"ok\":true,\"out_port\":\"p1\",\"in_port\":\"c2\",\"start_dbfs\":-40,\"stop_dbfs\":-12}"
    );
    let steps = level_steps(p.freq_hz, &vec![d(-40.0), d(-12.0), d(0.0)], p.ceiling_dbfs);
    let levels: Vec<Double> = steps.iter().map(|s| s.level_dbfs).collect();
    assert_eq!(levels, vec![d(-40.0), d(-12.0), d(-12.0)]);
    let tones = frequency_steps(&vec![d(20.0), d(40.0)], d(-12.0));
    assert_eq!(tones.len(), 2);
    assert_eq!((tones[1].freq_hz, tones[1].level_dbfs), (d(40.0), d(-12.0)));
    assert_eq!(hold_secs(d(0.1), d(0.15)), d(0.15));

    let p = plot_ir(&rig.launch(), &Json::obj()).ok().unwrap();
    assert_eq!(p.level_dbfs, d(-12.0));
    assert_eq!((p.tail_s, p.n_harmonics, p.window_len), (d(0.5), 5, 4096));
    assert_eq!(
        show(&plot_ir_started(&p)),
        "{\"ok\":true,\"out_port\":\"p1\",\"level_dbfs\":-12}"
    );
}

#[test]
fn a_plot_without_a_port_is_refused() {
    let mut rig = rig();
    rig.cfg.output_channel = 5;
    assert!(err(plot(&rig.launch(), &Json::obj())).contains("playback channel 5 is out of range"));
    rig.cfg.output_channel = 0;
    rig.cfg.input_channel = 9;
    assert!(err(plot_ir(&rig.launch(), &Json::obj())).contains("capture channel 9"));
}

#[test]
fn self_tests_need_a_reference_leg() {
    let mut rig = rig();
    assert_eq!(
        err(test_hardware(&rig.launch(), &Json::obj())),
        "{\"ok\":false,\"error\":\"reference channel not configured \u{2014} run: ac setup \
         reference <channel>\"}"
    );
    rig.cfg.reference_channel = Some(0);
    let cmd = Json::obj().with("dmm", Json::Bool(true));
    let p = test_hardware(&rig.launch(), &cmd).ok().unwrap();
    assert!(!p.dmm, "no meter is configured");
    assert_eq!(p.ports.out_ports(), strings(&["p1"]));
    assert_eq!(
        show(&p.ports.started()),
        "{\"ok\":true,\"out_port\":\"p1\",\"ref_out_port\":\"p1\",\"in_port\":\"c2\",\
         \"ref_port\":\"c1\"}"
    );
    rig.cfg.dmm_host = Some("meter".to_string());
    rig.cfg.reference_output_channel = Some(1);
    let p = test_hardware(&rig.launch(), &cmd).ok().unwrap();
    assert!(p.dmm);
    assert_eq!(p.ports.out_ports(), strings(&["p1", "p2"]));
    let q = test_dut(&rig.launch(), &Json::obj()).ok().unwrap();
    assert!(!q.compare);
    assert_eq!(q.level_dbfs, d(-20.0));
    rig.running = strings(&["monitor_spectrum"]);
    assert!(err(test_dut(&rig.launch(), &Json::obj())).contains("busy: monitor_spectrum"));
}

#[test]
fn a_monitor_takes_its_parameters_or_refuses_them() {
    let rig = rig();
    let defaults = MonitorParams {
        interval: d(0.2),
        fft_n: 8192,
        lf_fft_n: 65536,
        crossover_hz: ac_daemon::double::Single { bits: 500f32.to_bits() },
        active: false,
    };
    let run = |cmd: &Json| {
        monitor_spectrum(
            &rig.groups,
            &rig.running,
            &rig.cfg_fault,
            cmd,
            &rig.cfg,
            &rig.capture,
            defaults,
        )
    };
    let p = run(&Json::obj()).ok().unwrap();
    assert_eq!(p.channels, vec![1]);
    assert_eq!(p.in_ports, strings(&["c2"]));
    assert_eq!(p.params.fft_n, 8192);
    let reply = monitor_started(&p, "fake");
    assert_eq!(show(reply.get("in_port").unwrap()), "\"c2\"");
    assert_eq!(show(reply.get("channels").unwrap()), "[1]");
    assert!(err(run(&Json::obj().with("fft_n", Json::Uint(1000)))).contains("power of 2"));
    assert!(err(run(&Json::obj().with("interval", Json::Uint(61)))).contains("interval must be"));
}

fn identity() -> Identity {
    Identity {
        home: Json::string("/home/x"),
        config_path: "/home/x/cfg.json".to_string(),
        pid: 42,
        started_at: Json::string("then"),
        spawn_mode: Json::Null,
    }
}

#[test]
fn status_names_one_running_worker() {
    let backend = BackendStatus {
        required: Json::string("jack"),
        available: Json::Bool(true),
        backend: Json::string("jack"),
    };
    let s = status(
        &strings(&["monitor_spectrum", "generate"]),
        &Json::Uint(7),
        "local",
        &identity(),
        &backend,
    );
    assert_eq!(
        show(&s),
        "{\"ok\":true,\"busy\":true,\"running_cmd\":\"monitor_spectrum\",\"src_mtime\":7,\
         \"listen_mode\":\"local\",\"server_enabled\":true,\"home\":\"/home/x\",\
         \"config_path\":\"/home/x/cfg.json\",\"pid\":42,\"started_at\":\"then\",\
         \"spawn_mode\":null,\"backend_required\":\"jack\",\"backend_available\":true,\
         \"backend\":\"jack\"}"
    );
    let idle = status(&vec![], &Json::Null, "local", &identity(), &backend);
    assert_eq!(show(idle.get("running_cmd").unwrap()), "null");
    assert_eq!(show(idle.get("busy").unwrap()), "false");
    assert_eq!(show(&quit()), "{\"ok\":true,\"_quit\":true}");
}

#[test]
fn stop_ends_one_worker_or_all() {
    let workers = strings(&["generate", "monitor_spectrum"]);
    let one = stop(&workers, &Json::obj().with("name", Json::string("generate")));
    assert_eq!(one.stopped, strings(&["generate"]));
    assert_eq!(one.left, strings(&["monitor_spectrum"]));
    assert_eq!(show(&one.reply), "{\"ok\":true,\"stopped\":[\"generate\"]}");
    let all = stop(&workers, &Json::obj());
    assert_eq!(all.stopped, workers);
    assert!(all.left.is_empty());
    assert_eq!(
        show(&all.reply),
        "{\"ok\":true,\"stopped\":[\"generate\",\"monitor_spectrum\"],\"stimulus\":\"silent\"}"
    );
    let unknown = stop(&workers, &Json::obj().with("name", Json::string("plot")));
    assert!(unknown.stopped.is_empty());
    assert_eq!(unknown.left.len(), 2);
    assert_eq!(show(&unknown.reply), "{\"ok\":true,\"stopped\":[]}");
}

#[test]
fn devices_lists_the_ports_and_the_legs() {
    let mut cfg = config();
    cfg.reference_channel = Some(3);
    cfg.output_port = Some("x".to_string());
    assert_eq!(
        show(&devices(&cfg, &strings(&["p1"]), &strings(&["c1"]))),
        "{\"ok\":true,\"playback\":[\"p1\"],\"capture\":[\"c1\"],\"output_channel\":0,\
         \"input_channel\":1,\"output_port\":\"x\",\"input_port\":null,\"reference_channel\":3,\
         \"reference_port\":null,\"reference_output_channel\":null,\"reference_output_port\":null}"
    );
}

#[test]
fn the_bind_mode_switches() {
    let mut mode = ListenMode::Local;
    assert_eq!(
        show(&server_enable(&mut mode)),
        "{\"ok\":true,\"bind_addr\":\"*\",\"listen_mode\":\"public\"}"
    );
    assert_eq!(mode, ListenMode::Public);
    let c = server_connections(mode, 5556, 5557, &strings(&["plot"]), &identity());
    assert_eq!(show(c.get("ctrl_endpoint").unwrap()), "\"tcp://*:5556\"");
    assert_eq!(show(c.get("clients").unwrap()), "[]");
    assert_eq!(
        show(&server_disable(&mut mode)),
        "{\"ok\":true,\"bind_addr\":\"127.0.0.1\",\"listen_mode\":\"local\"}"
    );
    let c = server_connections(mode, 5556, 5557, &vec![], &identity());
    assert_eq!(show(c.get("data_endpoint").unwrap()), "\"tcp://127.0.0.1:5557\"");
}

#[test]
fn the_meter_is_asked_only_when_configured() {
    let mut cfg = config();
    assert_eq!(
        err(dmm_target(&cfg)),
        "{\"ok\":false,\"error\":\"no DMM configured on server \u{2014} run: ac setup dmm <host>\"}"
    );
    cfg.dmm_host = Some("meter".to_string());
    assert_eq!(dmm_target(&cfg).ok().unwrap(), "meter");
    assert_eq!(
        show(&dmm_read("meter", Some(d(1.25)))),
        "{\"ok\":true,\"vrms\":1.25,\"idn\":null}"
    );
    assert_eq!(
        show(&dmm_read("meter", None)),
        "{\"ok\":false,\"error\":\"DMM at meter did not respond\"}"
    );
}

fn stored() -> StoredCalibration {
    StoredCalibration {
        output_channel: 1,
        input_channel: 2,
        vrms_at_0dbfs_out: Some(d(2.0)),
        vrms_at_0dbfs_in: None,
        ref_dbfs: d(-10.0),
        mic_sensitivity_dbfs_at_94db_spl: None,
        mic_response: Json::Null,
        tau_history: vec![Json::obj().with("tau_s", Json::float(d(0.5)))],
        tau_checks: vec![Json::string("same")],
    }
}

#[test]
fn stored_calibrations_carry_a_live_check() {
    assert_eq!(
        show(&get_calibration(&Ok(Some(stored())))),
        "{\"ok\":true,\"found\":true,\"key\":\"out1_in2\",\"vrms_at_0dbfs_out\":2,\
         \"vrms_at_0dbfs_in\":null,\"ref_dbfs\":-10,\"mic_sensitivity_dbfs_at_94db_spl\":null,\
         \"mic_response\":null,\"tau_history\":[{\"tau_s\":0.5,\
         \"current_enumeration_check\":\"same\"}]}"
    );
    assert_eq!(
        show(&get_calibration(&Ok(None))),
        "{\"ok\":true,\"found\":false}"
    );
    assert_eq!(
        show(&get_calibration(&Err("unreadable".to_string()))),
        "{\"ok\":false,\"error\":\"unreadable\"}"
    );
    let list = list_calibrations(&Ok(vec![stored()]));
    assert!(show(&list).starts_with("{\"ok\":true,\"calibrations\":[{\"key\":\"out1_in2\""));
    assert!(!show(&list).contains("ref_dbfs"));
    assert_eq!(
        show(&list_calibrations(&Err("unreadable".to_string()))),
        "{\"ok\":false,\"error\":\"unreadable\"}"
    );
    assert_eq!(
        show(&tau_history_with_live_check(&vec![], &vec![])),
        "[]"
    );
    assert_eq!(
        backends_to_sample(&strings(&["jack", "cpal", "jack"])),
        strings(&["jack", "cpal"])
    );
}

#[test]
fn a_lookup_checks_its_channels() {
    let cfg = config();
    assert_eq!(
        calibration_target(&Json::obj(), &cfg).ok().unwrap(),
        (0, 1)
    );
    let cmd = Json::obj().with("input_channel", Json::Uint(5));
    assert_eq!(calibration_target(&cmd, &cfg).ok().unwrap(), (0, 5));
    let bad = Json::obj().with("output_channel", Json::string("one"));
    assert!(err(calibration_target(&bad, &cfg)).contains("calibration lookup rejected"));
}

#[test]
fn workers_end_with_a_frame() {
    assert_eq!(
        show(&error_frame("plot", "no engine")),
        "{\"cmd\":\"plot\",\"message\":\"no engine\"}"
    );
    assert_eq!(
        show(&done_frame("generate", "jack")),
        "{\"cmd\":\"generate\",\"backend\":\"jack\"}"
    );
}

fn why<T>(r: Result<T, Json>) -> String {
    let refusal = r.err().unwrap();
    assert_eq!(refusal.get("ok").unwrap().as_bool(), Some(false));
    refusal.get("error").unwrap().as_str().unwrap().to_string()
}

#[test]
fn a_channel_list_with_a_bad_element_is_refused_whole() {
    let rig = rig();
    let list = |items: Vec<Json>| Json::obj().with("channels", Json::array(items));
    let out = list(vec![Json::Uint(0), Json::Uint(7)]);
    assert_eq!(
        why(generate(&rig.launch(), &out, Ok(None), &limits())),
        "playback channel 7 is out of range \u{2014} only 3 physical playback port(s) available: \
         p1, p2, p3"
    );
    let text = list(vec![Json::Uint(0), Json::string("1")]);
    assert!(why(generate(&rig.launch(), &text, Ok(None), &limits()))
        .starts_with("generate not started \u{2014} channels[1]"));
    let all = list(vec![Json::Uint(1), Json::Uint(2), Json::Uint(1)]);
    let p = generate(&rig.launch(), &all, Ok(None), &limits()).ok().unwrap();
    assert_eq!(p.out_ports, strings(&["p2", "p3", "p2"]));
    let none = generate(&rig.launch(), &list(vec![]), Ok(None), &limits()).ok().unwrap();
    assert_eq!(none.out_ports, strings(&["p1"]));
}

#[test]
fn one_bad_channel_refuses_the_whole_monitor() {
    let rig = rig();
    let defaults = MonitorParams {
        interval: d(0.2),
        fft_n: 8192,
        lf_fft_n: 65536,
        crossover_hz: ac_daemon::double::Single { bits: 500f32.to_bits() },
        active: false,
    };
    let run = |channels: Vec<Json>| {
        monitor_spectrum(
            &rig.groups,
            &rig.running,
            &rig.cfg_fault,
            &Json::obj().with("channels", Json::array(channels)),
            &rig.cfg,
            &rig.capture,
            defaults,
        )
    };
    let both = run(vec![Json::Uint(1), Json::Uint(0)]).ok().unwrap();
    assert_eq!(both.in_ports, strings(&["c2", "c1"]));
    assert_eq!(
        why(run(vec![Json::Uint(0), Json::Uint(2)])),
        "capture channel 2 is out of range \u{2014} only 2 physical capture port(s) available: \
         c1, c2"
    );
}

#[test]
fn a_sweep_stays_under_the_maximum_between_its_ends() {
    let rig = rig();
    let cmd = Json::obj()
        .with("freq_hz", Json::Uint(1000))
        .with("start_dbfs", Json::Int(-30))
        .with("stop_dbfs", Json::Int(-3));
    let p = sweep_level(&rig.launch(), &cmd, Ok(None), &limits()).ok().unwrap();
    let (start, stop) = (f64::from_bits(p.start.bits), f64::from_bits(p.stop.bits));
    for i in 0..=100 {
        assert!(start + (stop - start) * f64::from(i) / 100.0 <= -3.0);
    }
    let above = cmd.with("stop_dbfs", Json::Int(-2));
    assert_eq!(
        why(sweep_level(&rig.launch(), &above, Ok(None), &limits())),
        "level above the maximum"
    );
}
