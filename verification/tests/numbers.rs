use std::collections::VecDeque;

use ac_daemon::double::{Double, Single};
use ac_daemon::gate::{
    cal_key, gate_pair_cal, publish_frame, selected_backend, LevelUnit, PairCal,
};
use ac_daemon::json::Json;
use ac_daemon::launch::{get_count, get_number};
use ac_daemon::ring::{contents, extend_and_trim, push_within, tail_of};
use ac_daemon::settings::{valid_fft_n, valid_interval, Weighting};
use ac_daemon::text::{lowercase, spaces, str_eq};

fn d(x: f64) -> Double {
    Double::new(x.to_bits())
}

fn f(x: Double) -> f64 {
    f64::from_bits(x.bits)
}

#[test]
fn doubles_compare_as_floats_do() {
    let xs = [
        f64::NEG_INFINITY, -2.5, -0.0, 0.0, 1e-310, 0.5, 1.0, 3e300, f64::INFINITY, f64::NAN,
    ];
    for &a in &xs {
        assert_eq!(d(a).is_nan(), a.is_nan());
        assert_eq!(d(a).is_finite(), a.is_finite());
        for &b in &xs {
            assert_eq!(d(a).lt(d(b)), a < b, "{a} < {b}");
            assert_eq!(d(a).le(d(b)), a <= b, "{a} <= {b}");
            if !a.is_nan() && !b.is_nan() {
                assert!(f(d(a).max_with(d(b))) == a.max(b), "max of {a} and {b}");
                assert!(f(d(a).min_with(d(b))) == a.min(b), "min of {a} and {b}");
            }
        }
    }
    assert_eq!(f(d(7.0).clamp_to(d(-1.0), d(5.0))), 5.0);
    assert_eq!(f(d(-7.0).clamp_to(d(-1.0), d(5.0))), -1.0);
    assert_eq!(f(d(2.0).clamp_to(d(-1.0), d(5.0))), 2.0);
}

#[test]
fn products_with_a_count_round_as_floats_do() {
    for x in [
        0.0, -0.0, -2.5, 1e-320, 1e-9, 0.002, 0.05, 0.1, 0.15, 0.2, 0.3, 1.0, 2.5, 29.97, 300.0,
        1_048_576.5, 4.5e15, 1e19, 1e20, 1e300, f64::INFINITY, f64::NEG_INFINITY, f64::NAN,
    ] {
        for n in [0u64, 1, 7, 128, 44_100, 96_000, 192_000, 4_294_967_295, 1 << 53, (1 << 53) + 1, (1 << 53) + 3,
            1 << 63, u64::MAX - 1024, u64::MAX] {
            let product = x * n as f64;
            assert_eq!(d(x).mul_trunc(n), product as u64, "{x} * {n}");
            assert_eq!(d(x).mul_ceil(n), product.ceil() as u64, "{x} * {n}");
            assert_eq!(d(x).mul_round(n), product.round() as u64, "{x} * {n}");
        }
    }
}

#[test]
fn doubling_is_exact() {
    for x in [
        0.0, -0.0, 5e-324, -5e-324, 1e-310, 2.2250738585072011e-308, 2.2250738585072014e-308,
        0.05, -0.07, 1.0, 1e300, 8.9e307, 9.1e307, -1.7e308, f64::MAX, f64::INFINITY,
        f64::NEG_INFINITY,
    ] {
        assert_eq!(d(x).doubled().bits, (2.0 * x).to_bits(), "{x}");
    }
    assert!(d(f64::NAN).doubled().is_nan());
}

#[test]
fn letters_are_lowered_and_nothing_else() {
    let all: String = (0u32..=0x2FF).filter_map(char::from_u32).collect();
    assert_eq!(lowercase(&all), all.to_ascii_lowercase());
    assert_eq!(lowercase("LEQ"), "leq");
    assert_eq!(lowercase(""), "");
}

#[test]
fn narrowing_and_fractions_round_as_floats_do() {
    for x in [0.0, -0.0, 0.1, -3.7, 1e-42, 1e-46, 3.5e38, -1e39, 16_777_217.0, f64::INFINITY] {
        assert_eq!(d(x).narrow().bits, (x as f32).to_bits(), "{x}");
    }
    assert!(d(f64::NAN).narrow().is_nan());
    for (i, n) in [(0u32, 999u32), (1, 999), (333, 999), (998, 999), (999, 999), (1, 3), (2, 7)] {
        assert_eq!(f(Double::fraction(i, n)), f64::from(i) / f64::from(n), "{i}/{n}");
    }
    let s = |x: f32| Single { bits: x.to_bits() };
    assert_eq!(s(30.0).clamp_to(s(5.0), s(24.0)).bits, 24f32.to_bits());
    assert!(s(5.0).is_finite() && s(5.0).le(s(24.0)) && !s(24.0).lt(s(5.0)));
}

#[test]
fn rings_keep_the_newest() {
    let mut ring: VecDeque<u32> = VecDeque::new();
    extend_and_trim(&mut ring, &vec![1, 2, 3], 4);
    extend_and_trim(&mut ring, &vec![4, 5], 4);
    assert_eq!(contents(&ring), vec![2, 3, 4, 5]);
    push_within(&mut ring, &vec![6], 4);
    assert_eq!(contents(&ring), vec![3, 4, 5, 6]);
    push_within(&mut ring, &vec![7, 8, 9, 10, 11], 4);
    assert_eq!(contents(&ring), vec![8, 9, 10, 11]);
    assert_eq!(tail_of(&vec![1, 2, 3], 2), vec![2, 3]);
    assert_eq!(tail_of(&vec![1, 2, 3], 9), vec![1, 2, 3]);
}

#[test]
fn an_unreadable_calibration_refuses_a_physical_level_only() {
    let unreadable = || Err("cal.json is unreadable".to_string());
    assert!(gate_pair_cal(unreadable(), LevelUnit::Dbfs).ok().unwrap().is_none());
    let e = gate_pair_cal(unreadable(), LevelUnit::Dbu).err().unwrap();
    assert_eq!(e.get("error").unwrap().as_str(), Some("cal.json is unreadable"));
    assert_eq!(e.get("ok").unwrap().as_bool(), Some(false));
    let stored = PairCal { key: cal_key(3, 14), has_voltage: true };
    assert_eq!(stored.key, "out3_in14");
    let kept = gate_pair_cal(Ok(Some(stored)), LevelUnit::Vrms).ok().unwrap().unwrap();
    assert!(kept.has_voltage);
}

#[test]
fn a_backend_is_selected_or_named_as_missing() {
    assert_eq!(selected_backend("jack", &Some("fake".to_string())), Ok("fake".to_string()));
    assert_eq!(
        selected_backend("jack", &None),
        Err("audio backend unavailable \u{2014} required jack; measurement not started"
            .to_string())
    );
}

#[test]
fn a_record_is_published_with_its_pair() {
    let body = Json::obj().with("id", Json::string("1-1"));
    let alone = publish_frame(&body, &None, &None, &None);
    assert!(alone.get("pair").is_none());
    let paired = publish_frame(&body, &Some("out0_in0".to_string()), &None, &None);
    let pair = paired.get("pair").unwrap();
    assert_eq!(pair.get("key").unwrap().as_str(), Some("out0_in0"));
    assert!(pair.get("voltage").unwrap().is_null());
    assert!(pair.get("latency").unwrap().is_null());
    assert_eq!(paired.get("id").unwrap().as_str(), Some("1-1"));
}

#[test]
fn request_numbers_fall_back_to_their_defaults() {
    let cmd = Json::obj()
        .with("a", Json::Uint(5))
        .with("b", Json::Float(d(0.5)))
        .with("c", Json::string("7"))
        .with("e", Json::Int(-2));
    assert_eq!(f(get_number(&cmd, "a", d(1.0))), 5.0);
    assert_eq!(f(get_number(&cmd, "b", d(1.0))), 0.5);
    assert_eq!(f(get_number(&cmd, "c", d(1.0))), 1.0);
    assert_eq!(f(get_number(&cmd, "e", d(1.0))), -2.0);
    assert_eq!(get_count(&cmd, "a", 9), 5);
    assert_eq!(get_count(&cmd, "b", 9), 9);
    assert_eq!(get_count(&cmd, "e", 9), 9);
    let wide = Json::obj().with("a", Json::Uint(u64::MAX));
    assert_eq!(f(get_number(&wide, "a", d(1.0))), u64::MAX as f64);
}

#[test]
fn monitor_limits_are_inclusive_at_the_top() {
    assert!(valid_interval(d(60.0)) && valid_interval(d(1e-300)));
    for x in [0.0, -1.0, 60.000_000_1, f64::NAN, f64::INFINITY] {
        assert!(!valid_interval(d(x)), "{x}");
    }
    assert!(valid_fft_n(256) && valid_fft_n(131_072));
    assert!(!valid_fft_n(128) && !valid_fft_n(262_144) && !valid_fft_n(1000) && !valid_fft_n(0));
    assert!(Weighting::A.shapes() && Weighting::C.shapes());
    assert!(!Weighting::Z.shapes() && !Weighting::Off.shapes());
    assert!(str_eq("cwt", "cwt") && !str_eq("cwt", "cqt") && !str_eq("cwt", "cw"));
    assert_eq!(spaces(3), "   ");
}

#[test]
fn integers_read_as_their_nearest_double() {
    for n in [
        0, 1, 61, 48_000, (1 << 53) - 1, 1 << 53, (1 << 53) + 1, (1 << 53) + 3, 1 << 63,
        u64::MAX - 1024, u64::MAX - 1023, u64::MAX,
    ] {
        assert_eq!(Json::Uint(n).as_double(), Some(d(n as f64)), "{n}");
    }
    for n in [0, 5, -1, -20, -(1 << 53) - 1, -(1 << 53) - 3, i64::MIN + 1, i64::MIN, i64::MAX] {
        assert_eq!(Json::Int(n).as_double(), Some(d(n as f64)), "{n}");
    }
    assert_eq!(Json::string("5").as_double(), None);
    assert_eq!(Json::Null.as_double(), None);
}
