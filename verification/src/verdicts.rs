//! The verdicts of the self-tests: what each makes of its measurements.
//!
//! Levels and ratios are computed and printed by the caller; the limits, the
//! selection of readings and the wording are here.
use vstd::prelude::*;

use crate::double::{Double, ONE};
use crate::selftest::{TestResult, TestResultV};
use crate::text::{dec, decimal, join, joined, signed_dec, signed_decimal, texts};

verus! {

/// The least of the numbers, from infinity down.
pub open spec fn least(xs: Seq<Double>) -> Double
    decreases xs.len(),
{
    if xs.len() == 0 {
        Double { bits: 0x7FF0_0000_0000_0000 }
    } else {
        least(xs.drop_last()).lesser(xs.last())
    }
}

/// The least of the numbers, from infinity down.
pub fn least_of(xs: &Vec<Double>) -> (r: Double)
    ensures
        r == least(xs@),
{
    let mut r: Double = Double::new(0x7FF0_0000_0000_0000);
    let mut i: usize = 0;
    assert(xs@.take(0) =~= Seq::empty());
    while i < xs.len()
        invariant
            i <= xs@.len(),
            r == least(xs@.take(i as int)),
        decreases xs@.len() - i,
    {
        assert(xs@.take(i + 1).drop_last() =~= xs@.take(i as int));
        r = r.min_with(xs[i]);
        i = i + 1;
    }
    assert(xs@.take(i as int) =~= xs@);
    r
}

/// The greatest of the numbers, from zero up.
pub open spec fn worst(xs: Seq<Double>) -> Double
    decreases xs.len(),
{
    if xs.len() == 0 {
        Double { bits: 0 }
    } else {
        worst(xs.drop_last()).greater(xs.last())
    }
}

/// The greatest of the numbers, from zero up.
pub fn worst_of(xs: &Vec<Double>) -> (r: Double)
    ensures
        r == worst(xs@),
{
    let mut r: Double = Double::new(0);
    let mut i: usize = 0;
    assert(xs@.take(0) =~= Seq::empty());
    while i < xs.len()
        invariant
            i <= xs@.len(),
            r == worst(xs@.take(i as int)),
        decreases xs@.len() - i,
    {
        assert(xs@.take(i + 1).drop_last() =~= xs@.take(i as int));
        r = r.max_with(xs[i]);
        i = i + 1;
    }
    assert(xs@.take(i as int) =~= xs@);
    r
}

/// A limit is kept on all numbers exactly where the worst of them keeps it.
pub proof fn the_worst_decides(xs: Seq<Double>, limit: Double)
    requires
        (Double { bits: 0 }).below(limit),
    ensures
        !worst(xs).nan(),
        worst(xs).below(limit) <==> forall|i: int|
            0 <= i < xs.len() ==> (#[trigger] xs[i]).nan() || xs[i].below(limit),
    decreases xs.len(),
{
    if xs.len() > 0 {
        let init = xs.drop_last();
        the_worst_decides(init, limit);
        if worst(xs).below(limit) {
            assert forall|i: int| 0 <= i < xs.len() implies (#[trigger] xs[i]).nan()
                || xs[i].below(limit) by {
                if i < init.len() {
                    assert(init[i].nan() || init[i].below(limit));
                }
            }
        }
        if forall|i: int|
            0 <= i < xs.len() ==> (#[trigger] xs[i]).nan() || xs[i].below(limit) {
            assert forall|i: int| 0 <= i < init.len() implies (#[trigger] init[i]).nan()
                || init[i].below(limit) by {
                assert(xs[i].nan() || xs[i].below(limit));
            }
            assert(xs[xs.len() - 1].nan() || xs[xs.len() - 1].below(limit));
        }
    }
}

/// -80 dBFS.
pub const NOISE_LIMIT: u64 = 0xC054_0000_0000_0000;

/// The outcome of the noise-floor test.
pub open spec fn noise_floor_result(
    a: Double,
    b: Double,
    shown_a: Seq<char>,
    shown_b: Seq<char>,
) -> TestResultV {
    TestResultV {
        name: "Noise floor"@,
        pass: a.below(Double { bits: NOISE_LIMIT }) && b.below(Double { bits: NOISE_LIMIT }),
        detail: shown_a + " dBFS / "@ + shown_b + " dBFS"@,
        tolerance: "< -80 dBFS"@,
    }
}

/// Noise floor: both inputs below -80 dBFS. `shown` are the levels to one
/// decimal.
pub fn hw_noise_floor(a: Double, b: Double, shown_a: &str, shown_b: &str) -> (r: TestResult)
    ensures
        r@ == noise_floor_result(a, b, shown_a@, shown_b@),
{
    let limit: Double = Double::new(NOISE_LIMIT);
    TestResult::new(
        "Noise floor",
        a.lt(limit) && b.lt(limit),
        shown_a.to_owned().concat(" dBFS / ").concat(shown_b).concat(" dBFS"),
        "< -80 dBFS",
    )
}

/// A level that was played and what was measured of it.
#[derive(Debug, Clone, Copy)]
pub struct LevelReading {
    pub level: i32,
    pub measured_dbfs: Double,
}

/// The readings of the levels that could be analysed.
pub open spec fn readings(levels: Seq<i32>, measured: Seq<Option<Double>>) -> Seq<LevelReading>
    decreases levels.len(),
{
    if levels.len() == 0 || measured.len() == 0 {
        Seq::empty()
    } else {
        let n = if levels.len() < measured.len() {
            levels.len() - 1
        } else {
            measured.len() - 1
        };
        let before = readings(levels.take(n), measured.take(n));
        match measured[n] {
            Some(x) => before.push(LevelReading { level: levels[n], measured_dbfs: x }),
            None => before,
        }
    }
}

/// The readings of the levels that could be analysed.
pub fn valid_readings(levels: &Vec<i32>, measured: &Vec<Option<Double>>) -> (r: Vec<LevelReading>)
    requires
        levels@.len() == measured@.len(),
    ensures
        r@ == readings(levels@, measured@),
{
    let mut out: Vec<LevelReading> = Vec::new();
    let mut i: usize = 0;
    while i < levels.len()
        invariant
            i <= levels@.len() == measured@.len(),
            out@ == readings(levels@.take(i as int), measured@.take(i as int)),
        decreases levels@.len() - i,
    {
        proof {
            assert(levels@.take(i + 1).take(i as int) =~= levels@.take(i as int));
            assert(measured@.take(i + 1).take(i as int) =~= measured@.take(i as int));
        }
        match measured[i] {
            Some(x) => out.push(LevelReading { level: levels[i], measured_dbfs: x }),
            None => {},
        }
        i = i + 1;
    }
    assert(levels@.take(i as int) =~= levels@);
    assert(measured@.take(i as int) =~= measured@);
    out
}

/// The levels of the linearity test: -42 to -6 dBFS in steps of 6.
pub fn linearity_levels() -> (r: Vec<i32>)
    ensures
        r@ == seq![-42i32, -36i32, -30i32, -24i32, -18i32, -12i32, -6i32],
{
    vec![-42, -36, -30, -24, -18, -12, -6]
}

/// The tolerance of a step, in dB: the top one has half a decibel more.
pub open spec fn tolerance_of(i: nat, steps: nat) -> Double {
    Double {
        bits: if i + 1 == steps {
            0x3FF8_0000_0000_0000
        } else {
            ONE
        },
    }
}

/// The tolerance of a step, in dB.
pub fn step_tolerance(i: usize, steps: usize) -> (r: Double)
    ensures
        r == tolerance_of(i as nat, steps as nat),
{
    if i < steps && i + 1 == steps {
        Double::new(0x3FF8_0000_0000_0000)
    } else {
        Double::new(ONE)
    }
}

/// Each measured level is above the one before.
pub open spec fn rising(rs: Seq<LevelReading>) -> bool {
    forall|i: int|
        0 <= i < rs.len() - 1 ==> (#[trigger] rs[i]).measured_dbfs.below(rs[i + 1].measured_dbfs)
}

fn is_rising(rs: &Vec<LevelReading>) -> (r: bool)
    ensures
        r == rising(rs@),
{
    let mut i: usize = 1;
    while i < rs.len()
        invariant
            1 <= i,
            i <= rs@.len() || i == 1,
            forall|k: int|
                0 <= k < i - 1 ==> (#[trigger] rs@[k]).measured_dbfs.below(
                    rs@[k + 1].measured_dbfs,
                ),
        decreases rs@.len() - i,
    {
        if !rs[i - 1].measured_dbfs.lt(rs[i].measured_dbfs) {
            assert(!rs@[i - 1].measured_dbfs.below(rs@[(i - 1) + 1].measured_dbfs));
            return false;
        }
        i = i + 1;
    }
    true
}

/// The step from one reading to the next.
pub open spec fn step_text(a: LevelReading, b: LevelReading, shown: Seq<char>) -> Seq<char> {
    signed_dec(a.level as int) + "\u{2192}"@ + signed_dec(b.level as int) + ":"@ + shown
}

/// The steps between readings.
pub open spec fn step_texts(rs: Seq<LevelReading>, shown: Seq<Seq<char>>) -> Seq<Seq<char>> {
    Seq::new(shown.len(), |i: int| step_text(rs[i], rs[i + 1], shown[i]))
}

/// The outcome of the linearity test.
pub open spec fn level_linearity_result(
    valid: Seq<LevelReading>,
    errors: Seq<Double>,
    shown: Seq<Seq<char>>,
) -> TestResultV {
    TestResultV {
        name: "Level linearity"@,
        pass: rising(valid) && worst(errors).at_most(Double { bits: ONE }),
        detail: "["@ + joined(step_texts(valid, shown), ", "@) + "]"@,
        tolerance: "monotonic, step error < 1 dB (1.5 dB top step)"@,
    }
}

/// Level linearity: the levels rise, and no step is off by more than its
/// tolerance. `errors` are the steps' errors in units of their tolerance,
/// `shown` the steps to two decimals.
pub fn hw_level_linearity(
    valid: &Vec<LevelReading>,
    errors: &Vec<Double>,
    shown: &Vec<String>,
) -> (r: TestResult)
    requires
        valid@.len() > 0 ==> shown@.len() == valid@.len() - 1,
        valid@.len() == 0 ==> shown@.len() == 0,
    ensures
        r@ == level_linearity_result(valid@, errors@, texts(shown@)),
{
    let mut parts: Vec<String> = Vec::new();
    let mut i: usize = 0;
    while i < shown.len()
        invariant
            i <= shown@.len(),
            valid@.len() > 0 ==> shown@.len() == valid@.len() - 1,
            valid@.len() == 0 ==> shown@.len() == 0,
            parts@.len() == i,
            forall|k: int|
                0 <= k < i ==> (#[trigger] parts@[k])@ == step_text(
                    valid@[k],
                    valid@[k + 1],
                    shown@[k]@,
                ),
        decreases shown@.len() - i,
    {
        parts.push(
            signed_decimal(valid[i].level as i64).concat("\u{2192}").concat(
                signed_decimal(valid[i + 1].level as i64).as_str(),
            ).concat(":").concat(shown[i].as_str()),
        );
        i = i + 1;
    }
    assert(texts(parts@) =~= step_texts(valid@, texts(shown@)));
    TestResult::new(
        "Level linearity",
        is_rising(valid) && worst_of(errors).le(Double::new(ONE)),
        "[".to_owned().concat(join(&parts, ", ").as_str()).concat("]"),
        "monotonic, step error < 1 dB (1.5 dB top step)",
    )
}

/// The levels of the THD test.
pub fn thd_levels() -> (r: Vec<i32>)
    ensures
        r@ == seq![-40i32, -30i32, -20i32, -10i32, -3i32],
{
    vec![-40, -30, -20, -10, -3]
}

/// A value at a level.
pub open spec fn at_level(level: i32, shown: Seq<char>) -> Seq<char> {
    signed_dec(level as int) + ":"@ + shown + "%"@
}

/// 0.05 percent.
pub const THD_LIMIT: u64 = 0x3FA9_9999_9999_999A;

/// The outcome of the THD test.
pub open spec fn thd_floor_result(
    levels: Seq<i32>,
    thd_pct: Seq<Double>,
    shown: Seq<String>,
    shown_best: Seq<char>,
) -> TestResultV {
    TestResultV {
        name: "THD floor (1 kHz)"@,
        pass: least(thd_pct).below(Double { bits: THD_LIMIT }),
        detail: "best "@ + shown_best + "%  ["@ + joined(
            Seq::new(levels.len(), |i: int| at_level(levels[i], shown[i]@)),
            ", "@,
        ) + "]"@,
        tolerance: "best THD < 0.05%"@,
    }
}

/// THD floor: the best of the levels is below 0.05 percent. `shown` are the
/// values and `shown_best` the best one, to four decimals.
pub fn hw_thd_floor(
    levels: &Vec<i32>,
    thd_pct: &Vec<Double>,
    shown: &Vec<String>,
    shown_best: &str,
) -> (r: TestResult)
    requires
        levels@.len() == shown@.len(),
    ensures
        r@ == thd_floor_result(levels@, thd_pct@, shown@, shown_best@),
{
    let mut parts: Vec<String> = Vec::new();
    let mut i: usize = 0;
    while i < levels.len()
        invariant
            i <= levels@.len() == shown@.len(),
            parts@.len() == i,
            forall|k: int|
                0 <= k < i ==> (#[trigger] parts@[k])@ == at_level(levels@[k], shown@[k]@),
        decreases levels@.len() - i,
    {
        parts.push(
            signed_decimal(levels[i] as i64).concat(":").concat(shown[i].as_str()).concat("%"),
        );
        i = i + 1;
    }
    assert(texts(parts@) =~= Seq::new(
        levels@.len(),
        |i: int| at_level(levels@[i], shown@[i]@),
    ));
    TestResult::new(
        "THD floor (1 kHz)",
        least_of(thd_pct).lt(Double::new(THD_LIMIT)),
        "best ".to_owned().concat(shown_best).concat("%  [").concat(
            join(&parts, ", ").as_str(),
        ).concat("]"),
        "best THD < 0.05%",
    )
}

/// A level or a voltage at a frequency.
#[derive(Debug, Clone, Copy)]
pub struct FreqReading {
    pub freq_hz: u32,
    pub value: Double,
}

/// The reading that the others are compared with: that of 1 kHz, or else the
/// first.
pub open spec fn reference_of(rs: Seq<FreqReading>) -> Double
    recommends
        rs.len() > 0,
{
    match at_1khz(rs) {
        Some(x) => x,
        None => rs[0].value,
    }
}

/// The first reading of 1 kHz.
pub open spec fn at_1khz(rs: Seq<FreqReading>) -> Option<Double>
    decreases rs.len(),
{
    if rs.len() == 0 {
        None
    } else if rs[0].freq_hz == 1000 {
        Some(rs[0].value)
    } else {
        at_1khz(rs.skip(1))
    }
}

/// The reading that the others are compared with.
pub fn reference_reading(rs: &Vec<FreqReading>) -> (r: Double)
    requires
        rs@.len() > 0,
    ensures
        r == reference_of(rs@),
{
    let mut i: usize = 0;
    assert(rs@.skip(0) =~= rs@);
    while i < rs.len()
        invariant
            i <= rs@.len(),
            at_1khz(rs@) == at_1khz(rs@.skip(i as int)),
        decreases rs@.len() - i,
    {
        if rs[i].freq_hz == 1000 {
            return rs[i].value;
        }
        assert(rs@.skip(i as int).skip(1) =~= rs@.skip(i + 1));
        i = i + 1;
    }
    rs[0].value
}

/// A deviation at a frequency.
pub open spec fn at_freq(freq_hz: u32, shown: Seq<char>) -> Seq<char> {
    dec(freq_hz as nat) + "Hz:"@ + shown + "dB"@
}

/// The text of deviations from the reading at 1 kHz.
pub open spec fn deviation_text(
    rs: Seq<FreqReading>,
    shown: Seq<String>,
    shown_max: Seq<char>,
) -> Seq<char> {
    "max deviation "@ + shown_max + " dB  ["@ + joined(
        Seq::new(rs.len(), |i: int| at_freq(rs[i].freq_hz, shown[i]@)),
        ", "@,
    ) + "]"@
}

fn deviation_detail(rs: &Vec<FreqReading>, shown: &Vec<String>, shown_max: &str) -> (r: String)
    requires
        rs@.len() == shown@.len(),
    ensures
        r@ == deviation_text(rs@, shown@, shown_max@),
{
    let mut parts: Vec<String> = Vec::new();
    let mut i: usize = 0;
    while i < rs.len()
        invariant
            i <= rs@.len() == shown@.len(),
            parts@.len() == i,
            forall|k: int|
                0 <= k < i ==> (#[trigger] parts@[k])@ == at_freq(rs@[k].freq_hz, shown@[k]@),
        decreases rs@.len() - i,
    {
        parts.push(
            decimal(rs[i].freq_hz as u64).concat("Hz:").concat(shown[i].as_str()).concat("dB"),
        );
        i = i + 1;
    }
    assert(texts(parts@) =~= Seq::new(
        rs@.len(),
        |i: int| at_freq(rs@[i].freq_hz, shown@[i]@),
    ));
    "max deviation ".to_owned().concat(shown_max).concat(" dB  [").concat(
        join(&parts, ", ").as_str(),
    ).concat("]")
}

/// A test that could not be made.
pub open spec fn failed(name: Seq<char>, detail: Seq<char>, tolerance: Seq<char>) -> TestResultV {
    TestResultV { name, pass: false, detail, tolerance }
}

/// The frequencies of the response test.
pub fn response_freqs() -> (r: Vec<u32>)
    ensures
        r@ == seq![50u32, 100u32, 500u32, 1000u32, 5000u32, 10000u32, 20000u32],
{
    vec![50, 100, 500, 1000, 5000, 10000, 20000]
}

/// The outcome of the response test.
pub open spec fn freq_response_result(
    rs: Seq<FreqReading>,
    deviations: Seq<Double>,
    shown: Seq<String>,
    shown_max: Seq<char>,
) -> TestResultV {
    if rs.len() < 2 {
        failed("Frequency response"@, "insufficient data"@, ""@)
    } else {
        TestResultV {
            name: "Frequency response"@,
            pass: worst(deviations).below(Double { bits: ONE }),
            detail: deviation_text(rs, shown, shown_max),
            tolerance: "< 1.0 dB vs 1 kHz ref"@,
        }
    }
}

/// Frequency response: within 1 dB of the reading at 1 kHz. `deviations` are
/// without sign; `shown` are those with sign, to two decimals.
pub fn hw_freq_response(
    rs: &Vec<FreqReading>,
    deviations: &Vec<Double>,
    shown: &Vec<String>,
    shown_max: &str,
) -> (r: TestResult)
    requires
        rs@.len() == shown@.len(),
    ensures
        r@ == freq_response_result(rs@, deviations@, shown@, shown_max@),
{
    if rs.len() < 2 {
        return TestResult::new("Frequency response", false, "insufficient data".to_owned(), "");
    }
    TestResult::new(
        "Frequency response",
        worst_of(deviations).lt(Double::new(ONE)),
        deviation_detail(rs, shown, shown_max),
        "< 1.0 dB vs 1 kHz ref",
    )
}

/// Half a decibel.
pub const MATCH_LEVEL_LIMIT: u64 = 0x3FE0_0000_0000_0000;

/// 0.01 percent.
pub const MATCH_THD_LIMIT: u64 = 0x3F84_7AE1_47AE_147B;

/// The difference of two inputs, without sign, as numbers and as text.
pub struct Difference<'a> {
    pub level_db: Double,
    pub thd_pct: Double,
    /// To three decimals.
    pub level_shown: &'a str,
    /// To four decimals.
    pub thd_shown: &'a str,
}

/// The outcome of the channel match.
pub open spec fn channel_match_result(difference: Option<Difference>) -> TestResultV {
    match difference {
        None => failed("Channel match"@, "measurement failed"@, ""@),
        Some(d) => TestResultV {
            name: "Channel match"@,
            pass: d.level_db.below(Double { bits: MATCH_LEVEL_LIMIT }) && d.thd_pct.below(
                Double { bits: MATCH_THD_LIMIT },
            ),
            detail: "delta level: "@ + d.level_shown@ + " dB  delta THD: "@ + d.thd_shown@
                + "%"@,
            tolerance: "level < 0.5 dB, THD < 0.01%"@,
        },
    }
}

/// Channel match: the two inputs agree within 0.5 dB and 0.01 percent.
pub fn hw_channel_match(difference: &Option<Difference>) -> (r: TestResult)
    ensures
        r@ == channel_match_result(*difference),
{
    match difference {
        None => TestResult::new("Channel match", false, "measurement failed".to_owned(), ""),
        Some(d) => TestResult::new(
            "Channel match",
            d.level_db.lt(Double::new(MATCH_LEVEL_LIMIT)) && d.thd_pct.lt(
                Double::new(MATCH_THD_LIMIT),
            ),
            "delta level: ".to_owned().concat(d.level_shown).concat(" dB  delta THD: ").concat(
                d.thd_shown,
            ).concat("%"),
            "level < 0.5 dB, THD < 0.01%",
        ),
    }
}

/// 0.05 dB.
pub const SPREAD_LEVEL_LIMIT: u64 = 0x3FA9_9999_9999_999A;

/// 0.005 percent.
pub const SPREAD_THD_LIMIT: u64 = 0x3F74_7AE1_47AE_147B;

/// The outcome of the repeatability test.
pub open spec fn repeatability_result(
    count: usize,
    level_sigma: Double,
    thd_sigma: Double,
    level_shown: Seq<char>,
    thd_shown: Seq<char>,
) -> TestResultV {
    if count < 3 {
        failed("Repeatability"@, "insufficient measurements"@, ""@)
    } else {
        TestResultV {
            name: "Repeatability"@,
            pass: level_sigma.below(Double { bits: SPREAD_LEVEL_LIMIT }) && thd_sigma.below(
                Double { bits: SPREAD_THD_LIMIT },
            ),
            detail: "level sigma="@ + level_shown + " dB  THD sigma="@ + thd_shown + "%  ("@
                + dec(count as nat) + "x)"@,
            tolerance: "level sigma < 0.05 dB, THD sigma < 0.005%"@,
        }
    }
}

/// Repeatability: of at least three readings, the levels spread by less than
/// 0.05 dB and the THD by less than 0.005 percent.
pub fn hw_repeatability(
    count: usize,
    level_sigma: Double,
    thd_sigma: Double,
    level_shown: &str,
    thd_shown: &str,
) -> (r: TestResult)
    ensures
        r@ == repeatability_result(count, level_sigma, thd_sigma, level_shown@, thd_shown@),
{
    if count < 3 {
        return TestResult::new(
            "Repeatability",
            false,
            "insufficient measurements".to_owned(),
            "",
        );
    }
    TestResult::new(
        "Repeatability",
        level_sigma.lt(Double::new(SPREAD_LEVEL_LIMIT)) && thd_sigma.lt(
            Double::new(SPREAD_THD_LIMIT),
        ),
        "level sigma=".to_owned().concat(level_shown).concat(" dB  THD sigma=").concat(
            thd_shown,
        ).concat("%  (").concat(decimal(count as u64).as_str()).concat("x)"),
        "level sigma < 0.05 dB, THD sigma < 0.005%",
    )
}

/// The meter's reading against the calibration's prediction.
pub struct Corroboration<'a> {
    /// Both in mVrms to three decimals.
    pub meter_shown: &'a str,
    pub predicted_shown: &'a str,
    /// In percent of the prediction, without sign, and the same to two
    /// decimals.
    pub error_pct: Double,
    pub error_shown: &'a str,
}

/// Why the meter and the calibration cannot be compared.
#[derive(Debug, Clone, Copy, PartialEq, Eq, Structural)]
pub enum NoCorroboration {
    MeterFailed,
    NoCalibration,
}

/// The outcome of the meter's absolute test.
pub open spec fn dmm_absolute_result(c: Result<Corroboration, NoCorroboration>) -> TestResultV {
    match c {
        Err(NoCorroboration::MeterFailed) => failed(
            "DMM absolute level"@,
            "DMM read failed"@,
            ""@,
        ),
        Err(NoCorroboration::NoCalibration) => failed(
            "DMM absolute level"@,
            "no output calibration"@,
            "requires calibration"@,
        ),
        Ok(c) => TestResultV {
            name: "DMM absolute level"@,
            pass: c.error_pct.below(Double { bits: ONE }),
            detail: "DMM: "@ + c.meter_shown@ + " mVrms  predicted: "@ + c.predicted_shown@
                + " mVrms  delta: "@ + c.error_shown@ + "%"@,
            tolerance: "< 1% error"@,
        },
    }
}

/// Absolute level by the meter: within one percent of the prediction.
pub fn hw_dmm_absolute(c: &Result<Corroboration, NoCorroboration>) -> (r: TestResult)
    ensures
        r@ == dmm_absolute_result(*c),
{
    match c {
        Err(NoCorroboration::MeterFailed) => TestResult::new(
            "DMM absolute level",
            false,
            "DMM read failed".to_owned(),
            "",
        ),
        Err(NoCorroboration::NoCalibration) => TestResult::new(
            "DMM absolute level",
            false,
            "no output calibration".to_owned(),
            "requires calibration",
        ),
        Ok(c) => TestResult::new(
            "DMM absolute level",
            c.error_pct.lt(Double::new(ONE)),
            "DMM: ".to_owned().concat(c.meter_shown).concat(" mVrms  predicted: ").concat(
                c.predicted_shown,
            ).concat(" mVrms  delta: ").concat(c.error_shown).concat("%"),
            "< 1% error",
        ),
    }
}

/// The levels of the tracking test.
pub fn tracking_levels() -> (r: Vec<i32>)
    ensures
        r@ == seq![-40i32, -30i32, -20i32, -10i32, -6i32, -3i32, 0i32],
{
    vec![-40, -30, -20, -10, -6, -3, 0]
}

/// Two percent.
pub const TRACKING_LIMIT: u64 = 0x4000_0000_0000_0000;

/// The outcome of the meter's tracking test.
pub open spec fn dmm_tracking_result(errors_pct: Seq<Double>, shown_max: Seq<char>) -> TestResultV {
    TestResultV {
        name: "DMM level tracking"@,
        pass: worst(errors_pct).below(Double { bits: TRACKING_LIMIT }) && errors_pct.len()
            >= 5,
        detail: "max error "@ + shown_max + "% over "@ + dec(errors_pct.len()) + " points"@,
        tolerance: "< 2% error at all levels"@,
    }
}

/// Level tracking by the meter: at least five levels, all within two percent.
pub fn hw_dmm_tracking(errors_pct: &Vec<Double>, shown_max: &str) -> (r: TestResult)
    ensures
        r@ == dmm_tracking_result(errors_pct@, shown_max@),
{
    TestResult::new(
        "DMM level tracking",
        worst_of(errors_pct).lt(Double::new(TRACKING_LIMIT)) && errors_pct.len() >= 5,
        "max error ".to_owned().concat(shown_max).concat("% over ").concat(
            decimal(errors_pct.len() as u64).as_str(),
        ).concat(" points"),
        "< 2% error at all levels",
    )
}

/// The frequencies of the meter's response test.
pub fn dmm_freqs() -> (r: Vec<u32>)
    ensures
        r@ == seq![100u32, 1000u32, 5000u32, 10000u32, 20000u32],
{
    vec![100, 1000, 5000, 10000, 20000]
}

/// The outcome of the meter's response test.
pub open spec fn dmm_freq_response_result(
    rs: Seq<FreqReading>,
    deviations: Seq<Double>,
    shown: Seq<String>,
    shown_max: Seq<char>,
) -> TestResultV {
    if rs.len() < 3 {
        failed("DMM freq response"@, "insufficient readings"@, ""@)
    } else {
        TestResultV {
            name: "DMM freq response"@,
            pass: worst(deviations).below(Double { bits: ONE }),
            detail: deviation_text(rs, shown, shown_max),
            tolerance: "< 1.0 dB vs 1 kHz ref"@,
        }
    }
}

/// Frequency response by the meter: of at least three readings, all within
/// 1 dB of that at 1 kHz.
pub fn hw_dmm_freq_response(
    rs: &Vec<FreqReading>,
    deviations: &Vec<Double>,
    shown: &Vec<String>,
    shown_max: &str,
) -> (r: TestResult)
    requires
        rs@.len() == shown@.len(),
    ensures
        r@ == dmm_freq_response_result(rs@, deviations@, shown@, shown_max@),
{
    if rs.len() < 3 {
        return TestResult::new(
            "DMM freq response",
            false,
            "insufficient readings".to_owned(),
            "",
        );
    }
    TestResult::new(
        "DMM freq response",
        worst_of(deviations).lt(Double::new(ONE)),
        deviation_detail(rs, shown, shown_max),
        "< 1.0 dB vs 1 kHz ref",
    )
}

/// A level as the calibration makes it out: in dBu where it knows the
/// voltage, else in dBFS. `shown` is the number to one decimal, with a sign
/// where it is in dBu.
pub fn cal_dbu_str(calibrated: bool, shown: &str) -> (r: String)
    ensures
        r@ == shown@ + (if calibrated {
            " dBu"@
        } else {
            " dBFS"@
        }),
{
    if calibrated {
        shown.to_owned().concat(" dBu")
    } else {
        shown.to_owned().concat(" dBFS")
    }
}

/// DUT noise floor: a statement, always passed.
pub fn dut_noise_floor(label: String) -> (r: TestResult)
    ensures
        r@ == (TestResultV {
            name: "Noise floor"@,
            pass: true,
            detail: label@,
            tolerance: "DUT output noise"@,
        }),
{
    TestResult::new("Noise floor", true, label, "DUT output noise")
}

/// What a gain measurement gives.
pub enum GainReading<'a> {
    CaptureFailed { error: &'a str },
    NoMeasurement,
    NoReference,
    /// The gain to one decimal with a sign, and the two levels.
    Measured { gain_shown: &'a str, reference: &'a str, measured: &'a str },
}

/// The outcome of a gain measurement.
pub open spec fn gain_result(g: GainReading) -> TestResultV {
    match g {
        GainReading::CaptureFailed { error } => failed(
            "Gain"@,
            "capture failed: "@ + error@,
            ""@,
        ),
        GainReading::NoMeasurement => failed(
            "Gain"@,
            "no signal at measurement input"@,
            ""@,
        ),
        GainReading::NoReference => failed("Gain"@, "no signal at reference input"@, ""@),
        GainReading::Measured { gain_shown, reference, measured } => TestResultV {
            name: "Gain"@,
            pass: true,
            detail: gain_shown@ + " dB  (ref: "@ + reference@ + " \u{2192} meas: "@ + measured@
                + ")"@,
            tolerance: "at 1 kHz"@,
        },
    }
}

/// DUT gain at 1 kHz.
pub fn dut_gain(g: &GainReading) -> (r: TestResult)
    ensures
        r@ == gain_result(*g),
{
    match g {
        GainReading::CaptureFailed { error } => TestResult::new(
            "Gain",
            false,
            "capture failed: ".to_owned().concat(error),
            "",
        ),
        GainReading::NoMeasurement => TestResult::new(
            "Gain",
            false,
            "no signal at measurement input".to_owned(),
            "",
        ),
        GainReading::NoReference => TestResult::new(
            "Gain",
            false,
            "no signal at reference input".to_owned(),
            "",
        ),
        GainReading::Measured { gain_shown, reference, measured } => TestResult::new(
            "Gain",
            true,
            (*gain_shown).to_owned().concat(" dB  (ref: ").concat(reference).concat(
                " \u{2192} meas: ",
            ).concat(measured).concat(")"),
            "at 1 kHz",
        ),
    }
}

/// The levels of the THD sweep through a DUT.
pub fn dut_thd_levels() -> (r: Vec<i32>)
    ensures
        r@ == seq![-40i32, -30i32, -20i32, -10i32, -6i32, -3i32],
{
    vec![-40, -30, -20, -10, -6, -3]
}

/// THD and gain at one drive level, as text.
pub struct ThdAtDrive {
    pub drive: String,
    /// To four decimals.
    pub thd_shown: String,
    /// To one decimal, with a sign.
    pub gain_shown: String,
}

/// One drive level's part of the text.
pub open spec fn thd_part(x: ThdAtDrive) -> Seq<char> {
    x.drive@ + ":"@ + x.thd_shown@ + "%/"@ + x.gain_shown@ + "dB"@
}

/// The outcome of the THD sweep through a DUT.
pub open spec fn thd_vs_level_result(rs: Seq<ThdAtDrive>, shown_best: Seq<char>) -> TestResultV {
    if rs.len() == 0 {
        failed("THD vs level"@, "no valid measurements"@, ""@)
    } else {
        TestResultV {
            name: "THD vs level"@,
            pass: true,
            detail: "best "@ + shown_best + "%  ["@ + joined(
                Seq::new(rs.len(), |i: int| thd_part(rs[i])),
                ", "@,
            ) + "]"@,
            tolerance: "THD%/gain at each drive level"@,
        }
    }
}

/// DUT distortion over level.
pub fn dut_thd_vs_level(rs: &Vec<ThdAtDrive>, shown_best: &str) -> (r: TestResult)
    ensures
        r@ == thd_vs_level_result(rs@, shown_best@),
{
    if rs.len() == 0 {
        return TestResult::new("THD vs level", false, "no valid measurements".to_owned(), "");
    }
    let mut parts: Vec<String> = Vec::new();
    let mut i: usize = 0;
    while i < rs.len()
        invariant
            i <= rs@.len(),
            parts@.len() == i,
            forall|k: int| 0 <= k < i ==> (#[trigger] parts@[k])@ == thd_part(rs@[k]),
        decreases rs@.len() - i,
    {
        parts.push(
            rs[i].drive.clone().concat(":").concat(rs[i].thd_shown.as_str()).concat("%/").concat(
                rs[i].gain_shown.as_str(),
            ).concat("dB"),
        );
        i = i + 1;
    }
    assert(texts(parts@) =~= Seq::new(rs@.len(), |i: int| thd_part(rs@[i])));
    TestResult::new(
        "THD vs level",
        true,
        "best ".to_owned().concat(shown_best).concat("%  [").concat(
            join(&parts, ", ").as_str(),
        ).concat("]"),
        "THD%/gain at each drive level",
    )
}

/// 50 Hz and 20 kHz, the ends of the band of a DUT's response.
pub const BAND_LOW: u64 = 0x4049_0000_0000_0000;

pub const BAND_HIGH: u64 = 0x40D3_8800_0000_0000;

/// A frequency within the band.
pub open spec fn in_band(f: Double) -> bool {
    (Double { bits: BAND_LOW }).at_most(f) && f.at_most(Double { bits: BAND_HIGH })
}

/// The indices of the frequencies within the band.
pub open spec fn band_of(freqs: Seq<Double>) -> Seq<usize>
    decreases freqs.len(),
{
    if freqs.len() == 0 {
        Seq::empty()
    } else if in_band(freqs.last()) {
        band_of(freqs.drop_last()).push((freqs.len() - 1) as usize)
    } else {
        band_of(freqs.drop_last())
    }
}

/// The indices of the frequencies from 50 Hz to 20 kHz.
pub fn band_indices(freqs: &Vec<Double>) -> (r: Vec<usize>)
    ensures
        r@ == band_of(freqs@),
{
    let mut out: Vec<usize> = Vec::new();
    let mut i: usize = 0;
    assert(freqs@.take(0) =~= Seq::empty());
    while i < freqs.len()
        invariant
            i <= freqs@.len(),
            out@ == band_of(freqs@.take(i as int)),
        decreases freqs@.len() - i,
    {
        assert(freqs@.take(i + 1).drop_last() =~= freqs@.take(i as int));
        if Double::new(BAND_LOW).le(freqs[i]) && freqs[i].le(Double::new(BAND_HIGH)) {
            out.push(i);
        }
        i = i + 1;
    }
    assert(freqs@.take(i as int) =~= freqs@);
    out
}

/// What a response measurement gives.
pub enum ResponseReading<'a> {
    CaptureFailed { error: &'a str },
    NoData,
    /// Above and below the median to one decimal with a sign, the mean
    /// coherence to three, the delay to two, and the level.
    Measured {
        above: &'a str,
        below: &'a str,
        coherence: &'a str,
        delay_ms: &'a str,
        level: &'a str,
    },
}

/// The outcome of a response measurement.
pub open spec fn response_result(m: ResponseReading) -> TestResultV {
    match m {
        ResponseReading::CaptureFailed { error } => failed(
            "Frequency response"@,
            "capture failed: "@ + error@,
            ""@,
        ),
        ResponseReading::NoData => failed(
            "Frequency response"@,
            "no data in 50-20kHz"@,
            ""@,
        ),
        ResponseReading::Measured { above, below, coherence, delay_ms, level } => TestResultV {
            name: "Frequency response"@,
            pass: true,
            detail: above@ + "/"@ + below@ + " dB  (50-20kHz, coh "@ + coherence@
                + ", delay "@ + delay_ms@ + "ms)  at "@ + level@,
            tolerance: "H1 transfer function"@,
        },
    }
}

/// DUT frequency response.
pub fn dut_freq_response(m: &ResponseReading) -> (r: TestResult)
    ensures
        r@ == response_result(*m),
{
    match m {
        ResponseReading::CaptureFailed { error } => TestResult::new(
            "Frequency response",
            false,
            "capture failed: ".to_owned().concat(error),
            "",
        ),
        ResponseReading::NoData => TestResult::new(
            "Frequency response",
            false,
            "no data in 50-20kHz".to_owned(),
            "",
        ),
        ResponseReading::Measured { above, below, coherence, delay_ms, level } => TestResult::new(
            "Frequency response",
            true,
            (*above).to_owned().concat("/").concat(below).concat(
                " dB  (50-20kHz, coh ",
            ).concat(coherence).concat(", delay ").concat(delay_ms).concat("ms)  at ").concat(
                level,
            ),
            "H1 transfer function",
        ),
    }
}

/// A search for the level at which a DUT clips, from -30 dBFS up in steps of
/// 3.
#[derive(Debug, Clone, Copy, PartialEq, Eq, Structural)]
pub struct ClipSearch {
    pub last_clean: Option<i32>,
    pub clip_level: Option<i32>,
}

/// The levels of the search.
pub fn clip_levels() -> (r: Vec<i32>)
    ensures
        r@.len() == 11,
        forall|i: int| 0 <= i < 11 ==> (#[trigger] r@[i]) == -30 + 3 * i,
{
    vec![-30, -27, -24, -21, -18, -15, -12, -9, -6, -3, 0]
}

/// What the capture at one level showed.
#[derive(Debug, Clone, Copy)]
pub struct ClipReading {
    pub thd_pct: Double,
    pub clipping: bool,
}

/// A capture clips where its THD is above one percent or samples clipped.
pub open spec fn clips(x: ClipReading) -> bool {
    (Double { bits: ONE }).below(x.thd_pct) || x.clipping
}

impl ClipSearch {
    pub fn new() -> (r: ClipSearch)
        ensures
            r == (ClipSearch { last_clean: None, clip_level: None }),
    {
        ClipSearch { last_clean: None, clip_level: None }
    }

    /// The search after a level: the first that clips ends it, a clean one is
    /// remembered, one that could not be analysed is passed over.
    pub open spec fn after(self, level: i32, reading: Option<ClipReading>) -> ClipSearch {
        match reading {
            None => self,
            Some(x) => if clips(x) {
                ClipSearch { clip_level: Some(level), ..self }
            } else {
                ClipSearch { last_clean: Some(level), ..self }
            },
        }
    }

    /// Takes in a level; true where the search goes on.
    pub fn observe(&mut self, level: i32, reading: Option<ClipReading>) -> (more: bool)
        requires
            old(self).clip_level is None,
        ensures
            *final(self) == old(self).after(level, reading),
            more == (final(self).clip_level is None),
    {
        match reading {
            None => true,
            Some(x) => if Double::new(ONE).lt(x.thd_pct) || x.clipping {
                self.clip_level = Some(level);
                false
            } else {
                self.last_clean = Some(level);
                true
            },
        }
    }

    /// The outcome, with the levels as text.
    pub open spec fn outcome(self, onset: Seq<char>, clean: Seq<char>) -> TestResultV {
        match (self.clip_level, self.last_clean) {
            (Some(_), last) => TestResultV {
                name: "Clipping point"@,
                pass: true,
                detail: "onset at "@ + onset + " (last clean: "@ + (if last is Some {
                    clean
                } else {
                    "?"@
                }) + ")"@,
                tolerance: "THD > 1% threshold"@,
            },
            (None, Some(_)) => TestResultV {
                name: "Clipping point"@,
                pass: true,
                detail: "clean through "@ + clean + " (no clipping detected)"@,
                tolerance: "THD > 1% threshold"@,
            },
            (None, None) => failed("Clipping point"@, "no valid measurements"@, ""@),
        }
    }

    /// The outcome. The levels come as the calibration makes them out; an
    /// unknown one is not looked at.
    pub fn result(self, onset: &str, clean: &str) -> (r: TestResult)
        ensures
            r@ == self.outcome(onset@, clean@),
    {
        match (self.clip_level, self.last_clean) {
            (Some(_), last) => {
                let shown = if last.is_some() {
                    clean
                } else {
                    "?"
                };
                TestResult::new(
                    "Clipping point",
                    true,
                    "onset at ".to_owned().concat(onset).concat(" (last clean: ").concat(
                        shown,
                    ).concat(")"),
                    "THD > 1% threshold",
                )
            },
            (None, Some(_)) => TestResult::new(
                "Clipping point",
                true,
                "clean through ".to_owned().concat(clean).concat(" (no clipping detected)"),
                "THD > 1% threshold",
            ),
            (None, None) => TestResult::new(
                "Clipping point",
                false,
                "no valid measurements".to_owned(),
                "",
            ),
        }
    }
}

/// The least of a list is a number at most every number in it, and where the
/// list holds a number it is one of them; without one it is infinity.
pub proof fn the_least_is_the_least(xs: Seq<Double>)
    ensures
        !least(xs).nan(),
        forall|i: int|
            0 <= i < xs.len() && !(#[trigger] xs[i]).nan() ==> least(xs).at_most(xs[i]),
        (exists|i: int| 0 <= i < xs.len() && !(#[trigger] xs[i]).nan()) ==> xs.contains(least(xs)),
        (forall|i: int| 0 <= i < xs.len() ==> (#[trigger] xs[i]).nan()) ==> least(xs) == (Double {
            bits: 0x7FF0_0000_0000_0000,
        }),
    decreases xs.len(),
{
    if xs.len() > 0 {
        let init = xs.drop_last();
        let last = xs.last();
        the_least_is_the_least(init);
        assert(xs =~= init.push(last));
        assert forall|i: int| 0 <= i < xs.len() && !(#[trigger] xs[i]).nan() implies least(
            xs,
        ).at_most(xs[i]) by {
            if i < init.len() {
                assert(!init[i].nan());
                assert(least(init).at_most(init[i]));
            }
        }
        if last.nan() {
            assert(least(xs) == least(init));
            if exists|i: int| 0 <= i < xs.len() && !(#[trigger] xs[i]).nan() {
                let i = choose|i: int| 0 <= i < xs.len() && !(#[trigger] xs[i]).nan();
                assert(!init[i].nan());
                let k = choose|k: int| 0 <= k < init.len() && init[k] == least(init);
                assert(xs[k] == least(xs));
            }
        } else {
            assert(!xs[xs.len() - 1].nan());
            if least(xs) != last {
                assert(least(xs) == least(init));
                assert(least(init).at_most(last));
                if forall|i: int| 0 <= i < init.len() ==> (#[trigger] init[i]).nan() {
                    assert(least(init) == (Double { bits: 0x7FF0_0000_0000_0000 }));
                    assert(false);
                }
                let i = choose|i: int| 0 <= i < init.len() && !(#[trigger] init[i]).nan();
                assert(0 <= i < init.len() && !init[i].nan());
                let k = choose|k: int| 0 <= k < init.len() && init[k] == least(init);
                assert(xs[k] == least(xs));
            } else {
                assert(xs[xs.len() - 1] == least(xs));
            }
        }
        if forall|i: int| 0 <= i < xs.len() ==> (#[trigger] xs[i]).nan() {
            assert forall|i: int| 0 <= i < init.len() implies (#[trigger] init[i]).nan() by {
                assert(xs[i].nan());
            }
            assert(xs[xs.len() - 1].nan());
        }
    }
}

/// The worst of a list is a number at least every number in it and at least
/// zero, and it is one of them or zero.
pub proof fn the_worst_is_the_greatest(xs: Seq<Double>)
    ensures
        !worst(xs).nan(),
        (Double { bits: 0 }).at_most(worst(xs)),
        forall|i: int|
            0 <= i < xs.len() && !(#[trigger] xs[i]).nan() ==> xs[i].at_most(worst(xs)),
        worst(xs) == (Double { bits: 0 }) || xs.contains(worst(xs)),
    decreases xs.len(),
{
    if xs.len() > 0 {
        let init = xs.drop_last();
        let last = xs.last();
        the_worst_is_the_greatest(init);
        assert(xs =~= init.push(last));
        assert forall|i: int| 0 <= i < xs.len() && !(#[trigger] xs[i]).nan() implies xs[i].at_most(
            worst(xs),
        ) by {
            if i < init.len() {
                assert(!init[i].nan());
                assert(init[i].at_most(worst(init)));
            }
        }
        if worst(xs) == last {
            assert(xs[xs.len() - 1] == worst(xs));
        } else if init.contains(worst(init)) {
            let k = choose|k: int| 0 <= k < init.len() && init[k] == worst(init);
            assert(xs[k] == worst(xs));
        }
    }
}

/// The THD floor passes exactly where the THD of some level is below 0.05
/// percent.
pub proof fn the_thd_floor_is_the_best_level(
    levels: Seq<i32>,
    thds: Seq<Double>,
    shown: Seq<String>,
    best: Seq<char>,
)
    ensures
        thd_floor_result(levels, thds, shown, best).pass <==> exists|i: int|
            0 <= i < thds.len() && (#[trigger] thds[i]).below(
                Double { bits: 0x3FA9_9999_9999_999A },
            ),
{
    the_least_is_the_least(thds);
    let limit = Double { bits: 0x3FA9_9999_9999_999A };
    if least(thds).below(limit) {
        if forall|i: int| 0 <= i < thds.len() ==> (#[trigger] thds[i]).nan() {
            assert(false);
        }
        let i = choose|i: int| 0 <= i < thds.len() && !(#[trigger] thds[i]).nan();
        assert(0 <= i < thds.len() && !thds[i].nan());
        let k = choose|k: int| 0 <= k < thds.len() && thds[k] == least(thds);
        assert(thds[k].below(limit));
    }
    if exists|i: int| 0 <= i < thds.len() && (#[trigger] thds[i]).below(limit) {
        let i = choose|i: int| 0 <= i < thds.len() && (#[trigger] thds[i]).below(limit);
        assert(least(thds).at_most(thds[i]));
    }
}

/// The noise floor passes where both inputs are below -80 dBFS, and fails as
/// soon as either is not; its text tells the two in order.
pub proof fn both_inputs_must_be_quiet(
    a: Double,
    b: Double,
    shown_a: Seq<char>,
    shown_b: Seq<char>,
)
    ensures
        ({
            let r = noise_floor_result(a, b, shown_a, shown_b);
            let limit = Double { bits: 0xC054_0000_0000_0000 };
            &&& r.pass <==> noise_floor_result(b, a, shown_b, shown_a).pass
            &&& r.pass ==> a.below(limit) && b.below(limit)
            &&& a.below(limit) && b.below(limit) ==> r.pass
            &&& shown_a.is_prefix_of(r.detail)
            &&& (shown_b + " dBFS"@).is_suffix_of(r.detail)
        }),
{
    let r = noise_floor_result(a, b, shown_a, shown_b);
    assert(r.detail.subrange(0, shown_a.len() as int) =~= shown_a);
    let tail = shown_b + " dBFS"@;
    assert(r.detail.subrange(r.detail.len() - tail.len(), r.detail.len() as int) =~= tail);
}

/// Linearity passes where each level measures above every one before it and
/// no step is off by more than its tolerance, which is the same for every step
/// but the top one.
pub proof fn linearity_is_rising_and_even(
    valid: Seq<LevelReading>,
    errors: Seq<Double>,
    shown: Seq<Seq<char>>,
)
    ensures
        ({
            let r = level_linearity_result(valid, errors, shown);
            let one = Double { bits: 0x3FF0_0000_0000_0000 };
            &&& r.pass ==> forall|i: int, j: int|
                0 <= i < j < valid.len() ==> (#[trigger] valid[i]).measured_dbfs.below(
                    (#[trigger] valid[j]).measured_dbfs,
                )
            &&& r.pass ==> forall|i: int|
                0 <= i < errors.len() ==> (#[trigger] errors[i]).nan() || errors[i].at_most(one)
            &&& !r.pass ==> (exists|i: int|
                0 <= i < valid.len() - 1 && !(#[trigger] valid[i]).measured_dbfs.below(
                    valid[i + 1].measured_dbfs,
                )) || (exists|i: int|
                0 <= i < errors.len() && one.below(#[trigger] errors[i]))
        }),
{
    the_worst_is_the_greatest(errors);
    let one = Double { bits: 0x3FF0_0000_0000_0000 };
    if rising(valid) {
        assert forall|i: int, j: int| 0 <= i < j < valid.len() implies (
        #[trigger] valid[i]).measured_dbfs.below((#[trigger] valid[j]).measured_dbfs) by {
            rising_over(valid, i, j);
        }
    }
    if rising(valid) && !worst(errors).at_most(one) {
        let k = choose|k: int| 0 <= k < errors.len() && errors[k] == worst(errors);
        assert(one.below(errors[k]));
    }
}

proof fn rising_over(rs: Seq<LevelReading>, i: int, j: int)
    requires
        rising(rs),
        0 <= i < j < rs.len(),
    ensures
        rs[i].measured_dbfs.below(rs[j].measured_dbfs),
    decreases j - i,
{
    assert(rs[j - 1].measured_dbfs.below(rs[(j - 1) + 1].measured_dbfs));
    if i < j - 1 {
        rising_over(rs, i, j - 1);
    }
}

/// Only the top step has the wider tolerance of 1.5 dB; every other has 1 dB.
pub proof fn the_top_step_has_more_room(i: nat, steps: nat)
    requires
        i < steps,
    ensures
        tolerance_of(i, steps) == (Double { bits: 0x3FF8_0000_0000_0000 }) <==> i == steps - 1,
        i < steps - 1 ==> tolerance_of(i, steps) == (Double { bits: 0x3FF0_0000_0000_0000 }),
{
}

/// A response passes where enough readings were taken and every deviation is
/// below 1 dB: two readings for the interface's own, three for the meter's.
pub proof fn every_deviation_must_be_small(
    rs: Seq<FreqReading>,
    deviations: Seq<Double>,
    shown: Seq<String>,
    shown_max: Seq<char>,
)
    ensures
        ({
            let one = Double { bits: 0x3FF0_0000_0000_0000 };
            let small = forall|i: int|
                0 <= i < deviations.len() ==> (#[trigger] deviations[i]).nan()
                    || deviations[i].below(one);
            &&& freq_response_result(rs, deviations, shown, shown_max).pass <==> rs.len() >= 2
                && small
            &&& dmm_freq_response_result(rs, deviations, shown, shown_max).pass <==> rs.len() >= 3
                && small
        }),
{
    the_worst_decides(deviations, Double { bits: ONE });
}

/// Tracking passes where at least five levels were read and every error is
/// below two percent.
pub proof fn every_level_must_track(errors: Seq<Double>, shown_max: Seq<char>)
    ensures
        dmm_tracking_result(errors, shown_max).pass <==> errors.len() >= 5 && forall|i: int|
            0 <= i < errors.len() ==> (#[trigger] errors[i]).nan() || errors[i].below(
                Double { bits: 0x4000_0000_0000_0000 },
            ),
{
    the_worst_decides(errors, Double { bits: TRACKING_LIMIT });
}

/// Channels match where both differences are small: the levels within half a
/// decibel and the THD within a hundredth of a percent. A failed measurement
/// matches nothing.
pub proof fn channels_match_in_level_and_thd(difference: Option<Difference>)
    ensures
        channel_match_result(difference).pass <==> difference is Some && (
        difference->0).level_db.below(Double { bits: 0x3FE0_0000_0000_0000 }) && (
        difference->0).thd_pct.below(Double { bits: 0x3F84_7AE1_47AE_147B }),
        difference matches Some(d) ==> ("delta level: "@ + d.level_shown@).is_prefix_of(
            channel_match_result(difference).detail,
        ) && (d.thd_shown@ + "%"@).is_suffix_of(channel_match_result(difference).detail),
{
    if let Some(d) = difference {
        let detail = channel_match_result(difference).detail;
        let head = "delta level: "@ + d.level_shown@;
        let tail = d.thd_shown@ + "%"@;
        assert(detail.subrange(0, head.len() as int) =~= head);
        assert(detail.subrange(detail.len() - tail.len(), detail.len() as int) =~= tail);
    }
}

/// Readings repeat where at least three were taken, the levels spread by less
/// than 0.05 dB and the THD by less than 0.005 percent.
pub proof fn readings_repeat_in_level_and_thd(
    count: usize,
    level_sigma: Double,
    thd_sigma: Double,
    level_shown: Seq<char>,
    thd_shown: Seq<char>,
)
    ensures
        ({
            let r = repeatability_result(count, level_sigma, thd_sigma, level_shown, thd_shown);
            &&& r.pass <==> count >= 3 && level_sigma.below(
                Double { bits: 0x3FA9_9999_9999_999A },
            ) && thd_sigma.below(Double { bits: 0x3F74_7AE1_47AE_147B })
            &&& count >= 3 ==> ("level sigma="@ + level_shown).is_prefix_of(r.detail)
        }),
{
    let r = repeatability_result(count, level_sigma, thd_sigma, level_shown, thd_shown);
    if count >= 3 {
        let head = "level sigma="@ + level_shown;
        assert(r.detail.subrange(0, head.len() as int) =~= head);
    }
}

/// The meter agrees where it was read, the output is calibrated and the error
/// is below one percent; the text tells its reading before the prediction.
pub proof fn the_meter_agrees_within_a_percent(c: Result<Corroboration, NoCorroboration>)
    ensures
        dmm_absolute_result(c).pass <==> c is Ok && (c->Ok_0).error_pct.below(
            Double { bits: 0x3FF0_0000_0000_0000 },
        ),
        c matches Ok(k) ==> ("DMM: "@ + k.meter_shown@).is_prefix_of(dmm_absolute_result(c).detail)
            && (k.error_shown@ + "%"@).is_suffix_of(dmm_absolute_result(c).detail),
{
    if let Ok(k) = c {
        let detail = dmm_absolute_result(c).detail;
        let head = "DMM: "@ + k.meter_shown@;
        let tail = k.error_shown@ + "%"@;
        assert(detail.subrange(0, head.len() as int) =~= head);
        assert(detail.subrange(detail.len() - tail.len(), detail.len() as int) =~= tail);
    }
}

/// A statement about a DUT passes exactly where its measurement was made, and
/// tells the gain first and the measured level last.
pub proof fn a_dut_passes_where_it_was_measured(
    gain: GainReading,
    response: ResponseReading,
    thds: Seq<ThdAtDrive>,
    best: Seq<char>,
)
    ensures
        gain_result(gain).pass <==> gain is Measured,
        response_result(response).pass <==> response is Measured,
        thd_vs_level_result(thds, best).pass <==> thds.len() > 0,
        gain matches GainReading::Measured { gain_shown, measured, .. }
            ==> gain_shown@.is_prefix_of(gain_result(gain).detail) && (measured@
            + ")"@).is_suffix_of(gain_result(gain).detail),
        response matches ResponseReading::Measured { above, level, .. } ==> above@.is_prefix_of(
            response_result(response).detail,
        ) && level@.is_suffix_of(response_result(response).detail),
{
    if let GainReading::Measured { gain_shown, measured, .. } = gain {
        let detail = gain_result(gain).detail;
        let tail = measured@ + ")"@;
        assert(detail.subrange(0, gain_shown@.len() as int) =~= gain_shown@);
        assert(detail.subrange(detail.len() - tail.len(), detail.len() as int) =~= tail);
    }
    if let ResponseReading::Measured { above, level, .. } = response {
        let detail = response_result(response).detail;
        assert(detail.subrange(0, above@.len() as int) =~= above@);
        assert(detail.subrange(detail.len() - level@.len(), detail.len() as int) =~= level@);
    }
}

/// A level that could be analysed adds its own reading at the end; one that
/// could not adds none.
pub proof fn readings_follow_their_levels(
    levels: Seq<i32>,
    measured: Seq<Option<Double>>,
    level: i32,
    reading: Option<Double>,
)
    requires
        levels.len() == measured.len(),
    ensures
        ({
            let before = readings(levels, measured);
            let after = readings(levels.push(level), measured.push(reading));
            &&& reading is None ==> after == before
            &&& reading is Some ==> after.len() == before.len() + 1 && after.drop_last() == before
                && after.last().level == level && Some(after.last().measured_dbfs) == reading
        }),
{
    let n = levels.len() as int;
    assert(levels.push(level).take(n) =~= levels);
    assert(measured.push(reading).take(n) =~= measured);
    let before = readings(levels, measured);
    if let Some(x) = reading {
        assert(before.push(LevelReading { level, measured_dbfs: x }).drop_last() =~= before);
    }
}

/// Responses are compared with the first reading of 1 kHz, and with the first
/// of all where there is none.
pub proof fn the_reference_is_at_1_khz(rs: Seq<FreqReading>, i: int)
    requires
        rs.len() > 0,
    ensures
        0 <= i < rs.len() && rs[i].freq_hz == 1000 && (forall|k: int|
            0 <= k < i ==> (#[trigger] rs[k]).freq_hz != 1000) ==> reference_of(rs) == rs[i].value,
        (forall|k: int| 0 <= k < rs.len() ==> (#[trigger] rs[k]).freq_hz != 1000)
            ==> reference_of(rs) == rs[0].value,
{
    if 0 <= i < rs.len() && rs[i].freq_hz == 1000 && (forall|k: int|
        0 <= k < i ==> (#[trigger] rs[k]).freq_hz != 1000) {
        found_at_1_khz(rs, i);
    }
    if forall|k: int| 0 <= k < rs.len() ==> (#[trigger] rs[k]).freq_hz != 1000 {
        none_at_1_khz(rs);
    }
}

proof fn found_at_1_khz(rs: Seq<FreqReading>, i: int)
    requires
        0 <= i < rs.len(),
        rs[i].freq_hz == 1000,
        forall|k: int| 0 <= k < i ==> (#[trigger] rs[k]).freq_hz != 1000,
    ensures
        at_1khz(rs) == Some(rs[i].value),
    decreases rs.len(),
{
    if i > 0 {
        assert(rs[0].freq_hz != 1000);
        let rest = rs.skip(1);
        assert forall|k: int| 0 <= k < i - 1 implies (#[trigger] rest[k]).freq_hz != 1000 by {
            assert(rs[k + 1].freq_hz != 1000);
        }
        found_at_1_khz(rest, i - 1);
    }
}

proof fn none_at_1_khz(rs: Seq<FreqReading>)
    requires
        forall|k: int| 0 <= k < rs.len() ==> (#[trigger] rs[k]).freq_hz != 1000,
    ensures
        at_1khz(rs) is None,
    decreases rs.len(),
{
    if rs.len() > 0 {
        assert(rs[0].freq_hz != 1000);
        let rest = rs.skip(1);
        assert forall|k: int| 0 <= k < rest.len() implies (#[trigger] rest[k]).freq_hz != 1000 by {
            assert(rs[k + 1].freq_hz != 1000);
        }
        none_at_1_khz(rest);
    }
}

/// The band holds every index whose frequency lies from 50 Hz to 20 kHz, both
/// included, in rising order, and no other.
pub proof fn the_band_is_50_hz_to_20_khz(freqs: Seq<Double>)
    requires
        freqs.len() <= usize::MAX,
    ensures
        forall|i: usize| #[trigger]
            band_of(freqs).contains(i) <==> i < freqs.len() && (Double {
                bits: 0x4049_0000_0000_0000,
            }).at_most(freqs[i as int]) && freqs[i as int].at_most(
                Double { bits: 0x40D3_8800_0000_0000 },
            ),
        forall|j: int, k: int|
            0 <= j < k < band_of(freqs).len() ==> band_of(freqs)[j] < band_of(freqs)[k],
    decreases freqs.len(),
{
    if freqs.len() > 0 {
        let rest = freqs.drop_last();
        the_band_is_50_hz_to_20_khz(rest);
        let n = (freqs.len() - 1) as usize;
        let b = band_of(rest);
        let c = band_of(freqs);
        assert forall|j: int| 0 <= j < b.len() implies (#[trigger] b[j]) < n by {
            assert(b.contains(b[j]));
        }
        assert forall|i: usize| #[trigger] c.contains(i) <==> i < freqs.len() && (Double {
            bits: 0x4049_0000_0000_0000,
        }).at_most(freqs[i as int]) && freqs[i as int].at_most(
            Double { bits: 0x40D3_8800_0000_0000 },
        ) by {
            assert(b.contains(i) <==> i < rest.len() && in_band(rest[i as int]));
            if b.contains(i) {
                let k = choose|k: int| 0 <= k < b.len() && b[k] == i;
                assert(c[k] == i);
            }
            if in_band(freqs.last()) {
                assert(c == b.push(n));
                assert(c[b.len() as int] == n);
            }
            if c.contains(i) {
                let k = choose|k: int| 0 <= k < c.len() && c[k] == i;
                if k < b.len() {
                    assert(b[k] == i);
                }
            }
        }
    }
}

/// A level clips where its THD is above one percent or samples clipped: then
/// the search is over at that level and the last clean one stands. A clean
/// level becomes the last clean one, and one without a reading changes
/// nothing.
pub proof fn a_search_stops_at_the_first_clipping_level(
    s: ClipSearch,
    level: i32,
    reading: Option<ClipReading>,
)
    ensures
        ({
            let t = s.after(level, reading);
            let clipped = reading is Some && (reading->0.clipping || (Double {
                bits: 0x3FF0_0000_0000_0000,
            }).below(reading->0.thd_pct));
            &&& clipped ==> t.clip_level == Some(level) && t.last_clean == s.last_clean
            &&& !clipped ==> t.clip_level == s.clip_level
            &&& reading is Some && !clipped ==> t.last_clean == Some(level)
            &&& reading is None ==> t == s
        }),
{
}

/// A search passes where any level was measured; it tells the onset where
/// there is one.
pub proof fn a_search_tells_what_it_found(s: ClipSearch, onset: Seq<char>, clean: Seq<char>)
    ensures
        s.outcome(onset, clean).pass <==> s.clip_level is Some || s.last_clean is Some,
        s.clip_level is Some ==> ("onset at "@ + onset).is_prefix_of(
            s.outcome(onset, clean).detail,
        ),
        s.clip_level is Some && s.last_clean is Some ==> (clean + ")"@).is_suffix_of(
            s.outcome(onset, clean).detail,
        ),
        s.clip_level is None && s.last_clean is Some ==> ("clean through "@ + clean).is_prefix_of(
            s.outcome(onset, clean).detail,
        ),
{
    let detail = s.outcome(onset, clean).detail;
    if s.clip_level is Some {
        let head = "onset at "@ + onset;
        assert(detail.subrange(0, head.len() as int) =~= head);
        if s.last_clean is Some {
            let tail = clean + ")"@;
            assert(detail.subrange(detail.len() - tail.len(), detail.len() as int) =~= tail);
        }
    } else if s.last_clean is Some {
        let head = "clean through "@ + clean;
        assert(detail.subrange(0, head.len() as int) =~= head);
    }
}

/// A drive level is told first, then its distortion, then its gain.
pub proof fn a_drive_level_is_told_with_its_readings(x: ThdAtDrive)
    ensures
        ({
            let t = thd_part(x);
            let d = x.drive@.len() as int;
            let h = x.thd_shown@.len() as int;
            let g = x.gain_shown@.len() as int;
            &&& t.subrange(0, d) == x.drive@
            &&& t.subrange(d + 1, d + 1 + h) == x.thd_shown@
            &&& t.subrange(d + h + 3, d + h + 3 + g) == x.gain_shown@
            &&& t.len() == d + h + g + 5
        }),
{
    reveal_strlit(":");
    reveal_strlit("%/");
    reveal_strlit("dB");
    let t = thd_part(x);
    let d = x.drive@.len() as int;
    let h = x.thd_shown@.len() as int;
    assert(t.subrange(0, d) =~= x.drive@);
    assert(t.subrange(d + 1, d + 1 + h) =~= x.thd_shown@);
}

/// Every part of a detail tells its own reading: steps go from the lower
/// level to the higher one, values stand at their level or frequency.
pub proof fn details_tell_their_readings(
    a: LevelReading,
    b: LevelReading,
    level: i32,
    freq: u32,
    value: Seq<char>,
)
    ensures
        step_text(a, b, value) == signed_dec(a.level as int) + "\u{2192}"@ + signed_dec(
            b.level as int,
        ) + ":"@ + value,
        at_level(level, value) == signed_dec(level as int) + ":"@ + value + "%"@,
        at_freq(freq, value) == dec(freq as nat) + "Hz:"@ + value + "dB"@,
{
}

/// The meter's detail tells what was read, what was predicted and how far the
/// two are apart, in this order.
pub proof fn the_meter_tells_both_values(c: Corroboration)
    ensures
        dmm_absolute_result(Ok(c)).detail == "DMM: "@ + c.meter_shown@ + " mVrms  predicted: "@
            + c.predicted_shown@ + " mVrms  delta: "@ + c.error_shown@ + "%"@,
{
}

/// The gain is told with the level at the reference and the one measured.
pub proof fn a_gain_is_told_with_its_levels(gain: GainReading)
    ensures
        gain matches GainReading::Measured { gain_shown, reference, measured } ==> gain_result(
            gain,
        ).detail == gain_shown@ + " dB  (ref: "@ + reference@ + " \u{2192} meas: "@ + measured@
            + ")"@,
{
}

/// The spread of a repeated reading is told for the level, then for the
/// distortion, with the number of readings.
pub proof fn a_spread_is_told_for_both_readings(
    count: nat,
    level_sigma: Double,
    thd_sigma: Double,
    level_shown: Seq<char>,
    thd_shown: Seq<char>,
)
    requires
        3 <= count <= usize::MAX,
    ensures
        repeatability_result(
            count as usize,
            level_sigma,
            thd_sigma,
            level_shown,
            thd_shown,
        ).detail == "level sigma="@ + level_shown + " dB  THD sigma="@ + thd_shown + "%  ("@ + dec(
            count,
        ) + "x)"@,
{
}

} // verus!
