//! The `test_hardware` and `test_dut` commands: their ports, the order of
//! their tests, and their frames.
use vstd::prelude::*;

use crate::busy::{blocker, busy_text, check_busy};
use crate::double::Double;
use crate::json::{double_or_null, fields_read_back, Json, JsonV};
use crate::launch::{get_number, number_or, Launch};
use crate::mic::{correction_tag, MicCorrection};
use crate::ports::{
    input_of, output_of, ref_input_of, ref_output_of, resolve_input, resolve_output,
    resolve_ref_input, resolve_ref_output,
};
use crate::settings::{ok, ok_reply};
use crate::text::{str_eq, texts};
use crate::wire::{bool_field, double_field, get_bool, refusal_reply, refuse};

verus! {

/// The outcome of one test.
#[derive(Debug)]
pub struct TestResult {
    pub name: String,
    pub pass: bool,
    pub detail: String,
    pub tolerance: String,
}

/// What an outcome says.
#[verifier::ext_equal]
pub struct TestResultV {
    pub name: Seq<char>,
    pub pass: bool,
    pub detail: Seq<char>,
    pub tolerance: Seq<char>,
}

impl TestResult {
    pub open spec fn view(&self) -> TestResultV {
        TestResultV {
            name: self.name@,
            pass: self.pass,
            detail: self.detail@,
            tolerance: self.tolerance@,
        }
    }

    pub fn new(name: &str, pass: bool, detail: String, tolerance: &str) -> (r: TestResult)
        ensures
            r@ == (TestResultV { name: name@, pass, detail: detail@, tolerance: tolerance@ }),
    {
        TestResult { name: name.to_owned(), pass, detail, tolerance: tolerance.to_owned() }
    }
}

/// The text that refuses a test without a reference leg.
pub const NO_REFERENCE: &'static str =
    "reference channel not configured \u{2014} run: ac setup reference <channel>";

/// The ports of a test. A test without a reference input of its own listens
/// to the measurement input.
#[derive(Debug)]
pub struct TestPorts {
    pub out_port: String,
    pub in_port: String,
    pub ref_port: String,
    pub ref_out_port: String,
}

/// The first reason to refuse a test: a busy worker, no reference leg, a port
/// that does not resolve.
pub open spec fn test_refusal(l: &Launch, name: Seq<char>) -> Option<JsonV> {
    match blocker(l.groups, texts(l.running@), name) {
        Some(w) => Some(refusal_reply(busy_text(w))),
        None => if l.cfg.reference_channel is None && l.cfg.reference_port is None {
            Some(refusal_reply(NO_REFERENCE@))
        } else {
            match output_of(l.cfg@, texts(l.playback@)) {
                Err(e) => Some(refusal_reply(e)),
                Ok(_) => match input_of(l.cfg@, texts(l.capture@)) {
                    Err(e) => Some(refusal_reply(e)),
                    Ok(_) => match ref_input_of(l.cfg@, texts(l.capture@)) {
                        Err(e) => Some(refusal_reply(e)),
                        Ok(_) => match ref_output_of(l.cfg@, texts(l.playback@)) {
                            Err(e) => Some(refusal_reply(e)),
                            Ok(_) => None,
                        },
                    },
                },
            }
        },
    }
}

/// The ports to play to: both outputs where they differ.
pub open spec fn played_to(out_port: Seq<char>, ref_out_port: Seq<char>) -> Seq<Seq<char>> {
    if ref_out_port != out_port {
        seq![out_port, ref_out_port]
    } else {
        seq![out_port]
    }
}

impl TestPorts {
    /// The ports are those that the configuration resolves to.
    pub open spec fn resolved(&self, l: &Launch) -> bool {
        &&& output_of(l.cfg@, texts(l.playback@)) == Ok::<Seq<char>, Seq<char>>(self.out_port@)
        &&& input_of(l.cfg@, texts(l.capture@)) == Ok::<Seq<char>, Seq<char>>(self.in_port@)
        &&& self.ref_port@ == (match ref_input_of(l.cfg@, texts(l.capture@)) {
            Ok(Some(p)) => p,
            _ => self.in_port@,
        })
        &&& ref_output_of(l.cfg@, texts(l.playback@)) == Ok::<Seq<char>, Seq<char>>(
            self.ref_out_port@,
        )
    }

    /// The ports to play to: both outputs where they differ.
    pub fn out_ports(&self) -> (r: Vec<String>)
        ensures
            texts(r@) == played_to(self.out_port@, self.ref_out_port@),
    {
        let mut out: Vec<String> = Vec::new();
        out.push(self.out_port.clone());
        if !str_eq(self.ref_out_port.as_str(), self.out_port.as_str()) {
            out.push(self.ref_out_port.clone());
            assert(texts(out@) =~= seq![self.out_port@, self.ref_out_port@]);
        } else {
            assert(texts(out@) =~= seq![self.out_port@]);
        }
        out
    }

    /// The reply to an accepted test.
    pub open spec fn started_reply(&self) -> JsonV {
        ok_reply().with("out_port"@, JsonV::Str(self.out_port@)).with(
            "ref_out_port"@,
            JsonV::Str(self.ref_out_port@),
        ).with("in_port"@, JsonV::Str(self.in_port@)).with(
            "ref_port"@,
            JsonV::Str(self.ref_port@),
        )
    }

    /// The reply to an accepted test.
    pub fn started(&self) -> (r: Json)
        ensures
            r@ == self.started_reply(),
    {
        ok().with("out_port", Json::string(self.out_port.as_str())).with(
            "ref_out_port",
            Json::string(self.ref_out_port.as_str()),
        ).with("in_port", Json::string(self.in_port.as_str())).with(
            "ref_port",
            Json::string(self.ref_port.as_str()),
        )
    }
}

fn test_ports(l: &Launch, name: &str) -> (r: Result<TestPorts, Json>)
    ensures
        match r {
            Err(e) => test_refusal(l, name@) == Some(e@),
            Ok(p) => test_refusal(l, name@) is None && p.resolved(l),
        },
{
    match check_busy(l.groups, l.running, name) {
        Some(e) => return Err(refuse(e.as_str())),
        None => {},
    }
    if l.cfg.reference_channel.is_none() && l.cfg.reference_port.is_none() {
        return Err(refuse(NO_REFERENCE));
    }
    let out_port = match resolve_output(l.cfg, l.playback) {
        Ok(p) => p,
        Err(e) => return Err(refuse(e.as_str())),
    };
    let in_port = match resolve_input(l.cfg, l.capture) {
        Ok(p) => p,
        Err(e) => return Err(refuse(e.as_str())),
    };
    let ref_port = match resolve_ref_input(l.cfg, l.capture) {
        Ok(Some(p)) => p,
        Ok(None) => in_port.clone(),
        Err(e) => return Err(refuse(e.as_str())),
    };
    let ref_out_port = match resolve_ref_output(l.cfg, l.playback) {
        Ok(p) => p,
        Err(e) => return Err(refuse(e.as_str())),
    };
    Ok(TestPorts { out_port, in_port, ref_port, ref_out_port })
}

/// The error of a backend that cannot route ports.
pub fn no_routing_message(backend: &str) -> (r: String)
    ensures
        r@ == backend@ + " backend does not support port routing"@,
{
    backend.to_owned().concat(" backend does not support port routing")
}

/// An accepted hardware test.
#[derive(Debug)]
pub struct HardwarePlan {
    pub ports: TestPorts,
    /// The meter's tests run too: they are asked for and a meter is
    /// configured.
    pub dmm: bool,
}

impl HardwarePlan {
    /// The plan is what the request asks for.
    pub open spec fn answers(&self, l: &Launch, cmd: JsonV) -> bool {
        &&& self.ports.resolved(l)
        &&& self.dmm == (bool_field(cmd, "dmm"@) == Some(true) && l.cfg.dmm_host is Some)
    }
}

/// `test_hardware`, up to the start of its worker.
pub fn test_hardware(l: &Launch, cmd: &Json) -> (r: Result<HardwarePlan, Json>)
    ensures
        match r {
            Err(e) => test_refusal(l, "test_hardware"@) == Some(e@),
            Ok(p) => {
                &&& test_refusal(l, "test_hardware"@) is None
                &&& p.answers(l, cmd@)
            },
        },
{
    let ports = match test_ports(l, "test_hardware") {
        Ok(p) => p,
        Err(e) => return Err(e),
    };
    let wanted: bool = match get_bool(cmd, "dmm") {
        Some(b) => b,
        None => false,
    };
    Ok(HardwarePlan { ports, dmm: wanted && l.cfg.dmm_host.is_some() })
}

/// The hardware tests, in the order in which they run. The last three need a
/// meter.
#[derive(Debug, Clone, Copy, PartialEq, Eq, Structural)]
pub enum HardwareTest {
    NoiseFloor,
    LevelLinearity,
    ThdFloor,
    FreqResponse,
    ChannelMatch,
    Repeatability,
    DmmAbsolute,
    DmmTracking,
    DmmFreqResponse,
}

impl HardwareTest {
    /// The place of a test in the order.
    pub open spec fn place(self) -> nat {
        match self {
            HardwareTest::NoiseFloor => 0,
            HardwareTest::LevelLinearity => 1,
            HardwareTest::ThdFloor => 2,
            HardwareTest::FreqResponse => 3,
            HardwareTest::ChannelMatch => 4,
            HardwareTest::Repeatability => 5,
            HardwareTest::DmmAbsolute => 6,
            HardwareTest::DmmTracking => 7,
            HardwareTest::DmmFreqResponse => 8,
        }
    }

    fn at(place: u32) -> (r: Option<HardwareTest>)
        ensures
            match r {
                Some(t) => t.place() == place,
                None => place >= 9,
            },
    {
        if place == 0 {
            Some(HardwareTest::NoiseFloor)
        } else if place == 1 {
            Some(HardwareTest::LevelLinearity)
        } else if place == 2 {
            Some(HardwareTest::ThdFloor)
        } else if place == 3 {
            Some(HardwareTest::FreqResponse)
        } else if place == 4 {
            Some(HardwareTest::ChannelMatch)
        } else if place == 5 {
            Some(HardwareTest::Repeatability)
        } else if place == 6 {
            Some(HardwareTest::DmmAbsolute)
        } else if place == 7 {
            Some(HardwareTest::DmmTracking)
        } else if place == 8 {
            Some(HardwareTest::DmmFreqResponse)
        } else {
            None
        }
    }
}

/// The fields that every test's frame ends with.
pub open spec fn result_fields(head: JsonV, r: TestResultV) -> JsonV {
    head.with("name"@, JsonV::Str(r.name)).with("pass"@, JsonV::Bool(r.pass)).with(
        "detail"@,
        JsonV::Str(r.detail),
    ).with("tolerance"@, JsonV::Str(r.tolerance))
}

fn with_result(head: Json, r: &TestResult) -> (f: Json)
    ensures
        f@ == result_fields(head@, r@),
{
    head.with("name", Json::string(r.name.as_str())).with("pass", Json::Bool(r.pass)).with(
        "detail",
        Json::string(r.detail.as_str()),
    ).with("tolerance", Json::string(r.tolerance.as_str()))
}

/// The head of a test's frame.
pub open spec fn result_head(cmd: Seq<char>) -> JsonV {
    JsonV::obj().with("type"@, JsonV::Str("test_result"@)).with("cmd"@, JsonV::Str(cmd))
}

/// How far a hardware test has come. The meter's tests are counted apart.
#[derive(Debug, Clone, Copy, PartialEq, Eq, Structural)]
pub struct HardwareRun {
    pub tests_run: u32,
    pub tests_pass: u32,
    pub dmm_run: u32,
    pub dmm_pass: u32,
}

/// One where `b`, else zero.
pub open spec fn one_if(b: bool) -> nat {
    if b {
        1
    } else {
        0
    }
}

impl HardwareRun {
    /// The six tests come before the meter's three, and no more pass than
    /// were run.
    pub open spec fn wf(self) -> bool {
        &&& self.tests_run <= 6
        &&& self.dmm_run <= 3
        &&& self.dmm_run > 0 ==> self.tests_run == 6
        &&& self.tests_pass <= self.tests_run
        &&& self.dmm_pass <= self.dmm_run
    }

    pub fn new() -> (r: HardwareRun)
        ensures
            r.wf(),
            r == (HardwareRun { tests_run: 0, tests_pass: 0, dmm_run: 0, dmm_pass: 0 }),
    {
        HardwareRun { tests_run: 0, tests_pass: 0, dmm_run: 0, dmm_pass: 0 }
    }

    /// Whether a test, or none, comes next.
    pub open spec fn leads_to(self, dmm: bool, stopped: bool, next: Option<HardwareTest>) -> bool {
        match next {
            Some(t) => {
                &&& !stopped
                &&& t.place() == self.tests_run + self.dmm_run
                &&& t.place() >= 6 ==> dmm
            },
            None => stopped || self.tests_run + self.dmm_run >= (if dmm {
                9int
            } else {
                6
            }),
        }
    }

    /// The test to run next; none when stopped or when all were run.
    pub fn next(self, dmm: bool, stopped: bool) -> (r: Option<HardwareTest>)
        requires
            self.wf(),
        ensures
            self.leads_to(dmm, stopped, r),
    {
        let done: u32 = self.tests_run + self.dmm_run;
        if stopped || (done >= 6 && !dmm) {
            None
        } else {
            HardwareTest::at(done)
        }
    }

    /// The run after a test.
    pub open spec fn after(self, pass: bool) -> HardwareRun {
        if self.tests_run < 6 {
            HardwareRun {
                tests_run: (self.tests_run + 1) as u32,
                tests_pass: (self.tests_pass + one_if(pass)) as u32,
                ..self
            }
        } else {
            HardwareRun {
                dmm_run: (self.dmm_run + 1) as u32,
                dmm_pass: (self.dmm_pass + one_if(pass)) as u32,
                ..self
            }
        }
    }

    /// The frame of the next test.
    pub open spec fn result_frame(
        self,
        result: TestResultV,
        mic: MicCorrection,
        spl_offset_db: Option<Double>,
    ) -> JsonV {
        if self.tests_run < 6 {
            result_fields(result_head("test_hardware"@), result).with(
                "mic_correction"@,
                JsonV::Str(correction_tag(mic.curve_loaded, mic.enabled)),
            ).with("spl_offset_db"@, double_or_null(spl_offset_db))
        } else {
            result_fields(result_head("test_hardware"@).with("dmm"@, JsonV::Bool(true)), result)
        }
    }

    /// Counts the outcome of the next test and gives its frame. The frame of
    /// a test without the meter tells the microphone's state.
    pub fn record(
        &mut self,
        result: &TestResult,
        mic: MicCorrection,
        spl_offset_db: Option<Double>,
    ) -> (r: Json)
        requires
            old(self).wf(),
            old(self).tests_run + old(self).dmm_run < 9,
        ensures
            final(self).wf(),
            *final(self) == old(self).after(result.pass),
            r@ == old(self).result_frame(result@, mic, spl_offset_db),
    {
        let head = Json::obj().with("type", Json::string("test_result")).with(
            "cmd",
            Json::string("test_hardware"),
        );
        if self.tests_run < 6 {
            if result.pass {
                self.tests_pass = self.tests_pass + 1;
            }
            self.tests_run = self.tests_run + 1;
            with_result(head, result).with("mic_correction", Json::string(mic.tag())).with(
                "spl_offset_db",
                Json::opt_float(spl_offset_db),
            )
        } else {
            if result.pass {
                self.dmm_pass = self.dmm_pass + 1;
            }
            self.dmm_run = self.dmm_run + 1;
            with_result(head.with("dmm", Json::Bool(true)), result)
        }
    }

    /// The `done` frame.
    pub open spec fn done_of(self, xruns: u32) -> JsonV {
        JsonV::obj().with("cmd"@, JsonV::Str("test_hardware"@)).with(
            "tests_run"@,
            JsonV::Uint(self.tests_run as u64),
        ).with("tests_pass"@, JsonV::Uint(self.tests_pass as u64)).with(
            "dmm_run"@,
            JsonV::Uint(self.dmm_run as u64),
        ).with("dmm_pass"@, JsonV::Uint(self.dmm_pass as u64)).with(
            "xruns"@,
            JsonV::Uint(xruns as u64),
        )
    }

    /// The `done` frame.
    pub fn done_frame(self, xruns: u32) -> (r: Json)
        ensures
            r@ == self.done_of(xruns),
    {
        Json::obj().with("cmd", Json::string("test_hardware")).with(
            "tests_run",
            Json::Uint(self.tests_run as u64),
        ).with("tests_pass", Json::Uint(self.tests_pass as u64)).with(
            "dmm_run",
            Json::Uint(self.dmm_run as u64),
        ).with("dmm_pass", Json::Uint(self.dmm_pass as u64)).with(
            "xruns",
            Json::Uint(xruns as u64),
        )
    }
}

/// The default level of a DUT test, -20 dBFS.
pub const DUT_LEVEL: u64 = 0xC034_0000_0000_0000;

/// An accepted DUT test.
#[derive(Debug)]
pub struct DutPlan {
    pub ports: TestPorts,
    /// The suite runs again with the DUT bypassed.
    pub compare: bool,
    pub level_dbfs: Double,
}

impl DutPlan {
    /// The plan is what the request asks for.
    pub open spec fn answers(&self, l: &Launch, cmd: JsonV) -> bool {
        &&& self.ports.resolved(l)
        &&& self.compare == (bool_field(cmd, "compare"@) == Some(true))
        &&& self.level_dbfs == number_or(cmd, "level_dbfs"@, Double { bits: DUT_LEVEL })
    }
}

/// `test_dut`, up to the start of its worker.
pub fn test_dut(l: &Launch, cmd: &Json) -> (r: Result<DutPlan, Json>)
    ensures
        match r {
            Err(e) => test_refusal(l, "test_dut"@) == Some(e@),
            Ok(p) => {
                &&& test_refusal(l, "test_dut"@) is None
                &&& p.answers(l, cmd@)
            },
        },
{
    let ports = match test_ports(l, "test_dut") {
        Ok(p) => p,
        Err(e) => return Err(e),
    };
    let compare: bool = match get_bool(cmd, "compare") {
        Some(b) => b,
        None => false,
    };
    let level_dbfs: Double = get_number(cmd, "level_dbfs", Double::new(DUT_LEVEL));
    Ok(DutPlan { ports, compare, level_dbfs })
}

/// The DUT tests, in the order in which they run.
#[derive(Debug, Clone, Copy, PartialEq, Eq, Structural)]
pub enum DutTest {
    NoiseFloor,
    Gain,
    ThdVsLevel,
    FreqResponse,
    ClippingPoint,
}

impl DutTest {
    /// The test at a place in the suite.
    pub open spec fn nth(place: int) -> DutTest {
        if place == 0 {
            DutTest::NoiseFloor
        } else if place == 1 {
            DutTest::Gain
        } else if place == 2 {
            DutTest::ThdVsLevel
        } else if place == 3 {
            DutTest::FreqResponse
        } else {
            DutTest::ClippingPoint
        }
    }

    fn at(place: u32) -> (r: DutTest)
        ensures
            r == DutTest::nth(place as int),
    {
        if place == 0 {
            DutTest::NoiseFloor
        } else if place == 1 {
            DutTest::Gain
        } else if place == 2 {
            DutTest::ThdVsLevel
        } else if place == 3 {
            DutTest::FreqResponse
        } else {
            DutTest::ClippingPoint
        }
    }
}

/// What a DUT test does next.
#[derive(Debug, Clone, Copy, PartialEq, Eq, Structural)]
pub enum DutStep {
    /// Run a test, with the DUT in the path or bypassed.
    Run { test: DutTest, bypass: bool },
    /// Ask for the DUT to be bypassed, and wait for a reply or the timeout.
    Prompt,
    /// Silence the output and report.
    Finish,
}

/// How far a DUT test has come.
#[derive(Debug, Clone, Copy, PartialEq, Eq, Structural)]
pub struct DutRun {
    pub tests_run: u32,
    /// The bypass was asked for and waited for.
    pub prompted: bool,
}

impl DutRun {
    /// The prompt comes between the two suites.
    pub open spec fn wf(self) -> bool {
        &&& self.tests_run <= 10
        &&& self.prompted ==> self.tests_run >= 5
        &&& !self.prompted ==> self.tests_run <= 5
    }

    pub fn new() -> (r: DutRun)
        ensures
            r.wf(),
            r == (DutRun { tests_run: 0, prompted: false }),
    {
        DutRun { tests_run: 0, prompted: false }
    }

    /// What comes next: the suite, then (in compare mode) the prompt and the
    /// suite again. A stop ends it.
    pub open spec fn step_of(self, compare: bool, stopped: bool) -> DutStep {
        if stopped || self.tests_run >= 10 || (self.tests_run == 5 && !self.prompted && !compare) {
            DutStep::Finish
        } else if self.tests_run == 5 && !self.prompted {
            DutStep::Prompt
        } else {
            DutStep::Run {
                test: DutTest::nth(self.tests_run as int % 5),
                bypass: self.prompted,
            }
        }
    }

    /// What comes next.
    pub fn next(self, compare: bool, stopped: bool) -> (r: DutStep)
        requires
            self.wf(),
        ensures
            r == self.step_of(compare, stopped),
    {
        if stopped || self.tests_run >= 10 || (self.tests_run == 5 && !self.prompted && !compare) {
            DutStep::Finish
        } else if self.tests_run == 5 && !self.prompted {
            DutStep::Prompt
        } else {
            DutStep::Run { test: DutTest::at(self.tests_run % 5), bypass: self.prompted }
        }
    }

    /// The bypass was asked for and waited for.
    pub fn prompt_answered(&mut self)
        requires
            old(self).wf(),
            old(self).tests_run == 5,
        ensures
            final(self).wf(),
            *final(self) == (DutRun { prompted: true, ..*old(self) }),
    {
        self.prompted = true;
    }

    /// The frame of a test.
    pub open spec fn result_frame(self, result: TestResultV) -> JsonV {
        result_fields(
            result_head("test_dut"@).with(
                "tag"@,
                JsonV::Str(
                    if self.prompted {
                        "bypass"@
                    } else {
                        "dut"@
                    },
                ),
            ),
            result,
        )
    }

    /// Counts the outcome of a test and gives its frame.
    pub fn record(&mut self, result: &TestResult) -> (r: Json)
        requires
            old(self).wf(),
            old(self).tests_run < 5 || (old(self).prompted && old(self).tests_run < 10),
        ensures
            final(self).wf(),
            *final(self) == (DutRun { tests_run: (old(self).tests_run + 1) as u32, ..*old(self) }),
            r@ == old(self).result_frame(result@),
    {
        let tag = if self.prompted {
            "bypass"
        } else {
            "dut"
        };
        self.tests_run = self.tests_run + 1;
        let head = Json::obj().with("type", Json::string("test_result")).with(
            "cmd",
            Json::string("test_dut"),
        ).with("tag", Json::string(tag));
        with_result(head, result)
    }

    /// The `done` frame.
    pub open spec fn done_of(self, compare: bool, xruns: u32) -> JsonV {
        JsonV::obj().with("cmd"@, JsonV::Str("test_dut"@)).with(
            "tests_run"@,
            JsonV::Uint(self.tests_run as u64),
        ).with("compare"@, JsonV::Bool(compare)).with("xruns"@, JsonV::Uint(xruns as u64))
    }

    /// The `done` frame.
    pub fn done_frame(self, compare: bool, xruns: u32) -> (r: Json)
        ensures
            r@ == self.done_of(compare, xruns),
    {
        Json::obj().with("cmd", Json::string("test_dut")).with(
            "tests_run",
            Json::Uint(self.tests_run as u64),
        ).with("compare", Json::Bool(compare)).with("xruns", Json::Uint(xruns as u64))
    }
}

/// The frame that asks for the DUT to be bypassed.
pub fn compare_prompt() -> (r: Json)
    ensures
        r@ == JsonV::obj().with("type"@, JsonV::Str("dut_compare_prompt"@)).with(
            "cmd"@,
            JsonV::Str("test_dut"@),
        ).with("message"@, JsonV::Str("Bypass DUT and press Enter"@)),
{
    Json::obj().with("type", Json::string("dut_compare_prompt")).with(
        "cmd",
        Json::string("test_dut"),
    ).with("message", Json::string("Bypass DUT and press Enter"))
}

/// Whether the wait for the bypass is over.
pub open spec fn wait_over(stopped: bool, past_deadline: bool, replied: bool) -> bool {
    stopped || past_deadline || replied
}

/// Whether the wait for the bypass is over.
pub fn prompt_over(stopped: bool, past_deadline: bool, replied: bool) -> (r: bool)
    ensures
        r == wait_over(stopped, past_deadline, replied),
{
    stopped || past_deadline || replied
}

/// `dut_reply`.
pub fn dut_reply() -> (r: Json)
    ensures
        r@ == ok_reply(),
{
    ok()
}

/// The suite runs at most twice, the second time bypassed, only in compare
/// mode, and only after the prompt.
pub proof fn bypass_comes_after_the_prompt(run: DutRun, compare: bool, stopped: bool)
    requires
        run.wf(),
    ensures
        ({
            let step = run.step_of(compare, stopped);
            &&& step matches DutStep::Run { bypass, .. } ==> (bypass <==> run.prompted) && !stopped
                && (run.tests_run < 5 || run.prompted)
            &&& step is Prompt ==> compare && run.tests_run == 5 && !run.prompted
            &&& stopped ==> step is Finish
        }),
{
}

/// A test's frame tells its outcome by name: what was tested, whether it
/// passed, what was found, and what would have been tolerated.
pub proof fn an_outcome_is_told_by_name(
    run: HardwareRun,
    dut: DutRun,
    result: TestResultV,
    mic: MicCorrection,
    offset: Option<Double>,
)
    requires
        run.wf(),
    ensures
        ({
            let frame = run.result_frame(result, mic, offset);
            &&& frame.field("type"@) == Some(JsonV::Str("test_result"@))
            &&& frame.field("cmd"@) == Some(JsonV::Str("test_hardware"@))
            &&& frame.field("name"@) == Some(JsonV::Str(result.name))
            &&& frame.field("pass"@) == Some(JsonV::Bool(result.pass))
            &&& frame.field("detail"@) == Some(JsonV::Str(result.detail))
            &&& frame.field("tolerance"@) == Some(JsonV::Str(result.tolerance))
            &&& run.tests_run < 6 ==> frame.field("dmm"@) is None && frame.field("mic_correction"@)
                == Some(JsonV::Str(correction_tag(mic.curve_loaded, mic.enabled))) && frame.field(
                "spl_offset_db"@,
            ) == Some(double_or_null(offset))
            &&& run.tests_run == 6 ==> frame.field("dmm"@) == Some(JsonV::Bool(true))
                && frame.field("mic_correction"@) is None && frame.field("spl_offset_db"@) is None
        }),
        ({
            let frame = dut.result_frame(result);
            &&& frame.field("type"@) == Some(JsonV::Str("test_result"@))
            &&& frame.field("cmd"@) == Some(JsonV::Str("test_dut"@))
            &&& frame.field("name"@) == Some(JsonV::Str(result.name))
            &&& frame.field("pass"@) == Some(JsonV::Bool(result.pass))
            &&& frame.field("detail"@) == Some(JsonV::Str(result.detail))
            &&& frame.field("tolerance"@) == Some(JsonV::Str(result.tolerance))
            &&& dut.prompted ==> frame.field("tag"@) == Some(JsonV::Str("bypass"@))
            &&& !dut.prompted ==> frame.field("tag"@) == Some(JsonV::Str("dut"@))
        }),
{
    fields_read_back();
    reveal_strlit("type");
    reveal_strlit("cmd");
    reveal_strlit("name");
    reveal_strlit("pass");
    reveal_strlit("detail");
    reveal_strlit("tolerance");
    reveal_strlit("mic_correction");
    reveal_strlit("spl_offset_db");
    reveal_strlit("dmm");
    reveal_strlit("tag");
    assert("type"@.len() == 4);
    assert("cmd"@.len() == 3);
    assert("name"@.len() == 4);
    assert("pass"@.len() == 4);
    assert("detail"@.len() == 6);
    assert("tolerance"@.len() == 9);
    assert("mic_correction"@.len() == 14);
    assert("spl_offset_db"@.len() == 13);
    assert("dmm"@.len() == 3);
    assert("tag"@.len() == 3);
    assert("type"@[0] != "name"@[0]);
    assert("type"@[0] != "pass"@[0]);
    assert("name"@[0] != "pass"@[0]);
    assert("cmd"@[0] != "dmm"@[0]);
    assert("cmd"@[0] != "tag"@[0]);
    assert("dmm"@[0] != "tag"@[0]);
}

/// Each test is counted once, among its own kind, and a passed one once more
/// as passed: the counts tell how many tests were run and how many of them
/// passed. The meter's tests begin when the six others are done.
pub proof fn every_test_is_counted_once(run: HardwareRun, pass: bool)
    requires
        run.wf(),
        run.tests_run + run.dmm_run < 9,
    ensures
        ({
            let t = run.after(pass);
            &&& t.wf()
            &&& t.tests_run + t.dmm_run == run.tests_run + run.dmm_run + 1
            &&& pass ==> t.tests_pass + t.dmm_pass == run.tests_pass + run.dmm_pass + 1
            &&& !pass ==> t.tests_pass == run.tests_pass && t.dmm_pass == run.dmm_pass
            &&& run.tests_run < 6 ==> t.dmm_run == run.dmm_run && t.dmm_pass == run.dmm_pass
            &&& run.tests_run == 6 ==> t.tests_run == run.tests_run && t.tests_pass
                == run.tests_pass
        }),
{
}

/// The tests run in their order, each once: a run that was not stopped goes on
/// to the test whose place is the count of those before, and ends after six
/// tests, or after nine with a meter. The order begins with the noise floor
/// and ends with the meter's response.
pub proof fn tests_run_in_order(
    run: HardwareRun,
    dmm: bool,
    stopped: bool,
    next: Option<HardwareTest>,
)
    requires
        run.wf(),
        run.leads_to(dmm, stopped, next),
    ensures
        stopped ==> next is None,
        next is Some ==> next->0.place() == run.tests_run + run.dmm_run,
        !stopped && run.tests_run + run.dmm_run < 6 ==> next is Some,
        !stopped && dmm && run.tests_run + run.dmm_run < 9 ==> next is Some,
        !dmm && run.tests_run + run.dmm_run >= 6 ==> next is None,
        run.tests_run + run.dmm_run == 9 ==> next is None,
        next == Some(HardwareTest::NoiseFloor) ==> run.tests_run == 0,
        next == Some(HardwareTest::Repeatability) ==> run.tests_run == 5,
        next == Some(HardwareTest::DmmAbsolute) ==> run.tests_run == 6 && run.dmm_run == 0 && dmm,
        next == Some(HardwareTest::DmmFreqResponse) ==> run.dmm_run == 2 && dmm,
{
}

/// The frames that end the tests tell each count under its own name.
pub proof fn counts_are_told_by_name(run: HardwareRun, dut: DutRun, compare: bool, crossed: u32)
    ensures
        run.done_of(crossed).field("cmd"@) == Some(JsonV::Str("test_hardware"@)),
        run.done_of(crossed).field("tests_run"@) == Some(JsonV::Uint(run.tests_run as u64)),
        run.done_of(crossed).field("tests_pass"@) == Some(JsonV::Uint(run.tests_pass as u64)),
        run.done_of(crossed).field("dmm_run"@) == Some(JsonV::Uint(run.dmm_run as u64)),
        run.done_of(crossed).field("dmm_pass"@) == Some(JsonV::Uint(run.dmm_pass as u64)),
        run.done_of(crossed).field("xruns"@) == Some(JsonV::Uint(crossed as u64)),
        dut.done_of(compare, crossed).field("cmd"@) == Some(JsonV::Str("test_dut"@)),
        dut.done_of(compare, crossed).field("tests_run"@) == Some(
            JsonV::Uint(dut.tests_run as u64),
        ),
        dut.done_of(compare, crossed).field("compare"@) == Some(JsonV::Bool(compare)),
        dut.done_of(compare, crossed).field("xruns"@) == Some(JsonV::Uint(crossed as u64)),
{
    fields_read_back();
    reveal_strlit("cmd");
    reveal_strlit("tests_run");
    reveal_strlit("tests_pass");
    reveal_strlit("dmm_run");
    reveal_strlit("dmm_pass");
    reveal_strlit("xruns");
    reveal_strlit("compare");
    assert("cmd"@.len() == 3);
    assert("tests_run"@.len() == 9);
    assert("tests_pass"@.len() == 10);
    assert("dmm_run"@.len() == 7);
    assert("dmm_pass"@.len() == 8);
    assert("xruns"@.len() == 5);
    assert("compare"@.len() == 7);
    assert("dmm_run"@[0] != "compare"@[0]);
}

/// A suite runs its five tests in order, and in compare mode once more after
/// the prompt; then it ends.
pub proof fn a_suite_runs_in_order(run: DutRun, compare: bool)
    requires
        run.wf(),
    ensures
        ({
            let step = run.step_of(compare, false);
            let done = run.tests_run;
            &&& done < 5 || (run.prompted && done < 10) ==> step is Run
            &&& done == 5 && !run.prompted && compare ==> step is Prompt
            &&& done == 5 && !run.prompted && !compare ==> step is Finish
            &&& done == 10 ==> step is Finish
            &&& step matches DutStep::Run { test, .. } ==> {
                &&& test == DutTest::NoiseFloor <==> done == 0 || done == 5
                &&& test == DutTest::Gain <==> done == 1 || done == 6
                &&& test == DutTest::ThdVsLevel <==> done == 2 || done == 7
                &&& test == DutTest::FreqResponse <==> done == 3 || done == 8
                &&& test == DutTest::ClippingPoint <==> done == 4 || done == 9
            }
        }),
{
}

/// The reply to a test names each port as what it is.
pub proof fn test_ports_are_told_by_name(ports: TestPorts)
    ensures
        ports.started_reply().field("ok"@) == Some(JsonV::Bool(true)),
        ports.started_reply().field("out_port"@) == Some(JsonV::Str(ports.out_port@)),
        ports.started_reply().field("ref_out_port"@) == Some(JsonV::Str(ports.ref_out_port@)),
        ports.started_reply().field("in_port"@) == Some(JsonV::Str(ports.in_port@)),
        ports.started_reply().field("ref_port"@) == Some(JsonV::Str(ports.ref_port@)),
{
    fields_read_back();
    reveal_strlit("ok");
    reveal_strlit("out_port");
    reveal_strlit("ref_out_port");
    reveal_strlit("in_port");
    reveal_strlit("ref_port");
    assert("ok"@.len() == 2);
    assert("out_port"@.len() == 8);
    assert("ref_out_port"@.len() == 12);
    assert("in_port"@.len() == 7);
    assert("ref_port"@.len() == 8);
    assert("out_port"@[0] != "ref_port"@[0]);
}

/// A test plays to both outputs, the main one first, and to one output only
/// once.
pub proof fn each_output_is_played_to_once(main: Seq<char>, reference: Seq<char>)
    ensures
        played_to(main, reference).contains(main),
        played_to(main, reference).contains(reference),
        played_to(main, reference)[0] == main,
        main == reference ==> played_to(main, reference).len() == 1,
        main != reference ==> played_to(main, reference).len() == 2,
{
    let ports = played_to(main, reference);
    assert(ports[0] == main);
    if main != reference {
        assert(ports[1] == reference);
    }
}

/// A test uses the ports of the configuration, each leg its own: the reference
/// input where there is one, else the measurement input.
pub proof fn a_test_uses_the_configured_ports(ports: TestPorts, l: &Launch)
    requires
        ports.resolved(l),
    ensures
        output_of(l.cfg@, texts(l.playback@)) == Ok::<Seq<char>, Seq<char>>(ports.out_port@),
        input_of(l.cfg@, texts(l.capture@)) == Ok::<Seq<char>, Seq<char>>(ports.in_port@),
        ref_output_of(l.cfg@, texts(l.playback@)) == Ok::<Seq<char>, Seq<char>>(
            ports.ref_out_port@,
        ),
        ref_input_of(l.cfg@, texts(l.capture@)) matches Ok(Some(p)) ==> ports.ref_port@ == p,
        ref_input_of(l.cfg@, texts(l.capture@)) matches Ok(None) ==> ports.ref_port@
            == ports.in_port@,
{
}

/// A test is refused for the first thing that it lacks: leave to run, a
/// reference leg, and the four ports in turn.
pub proof fn a_test_without_its_legs_is_refused(l: &Launch, name: Seq<char>)
    ensures
        ({
            let refusal = test_refusal(l, name);
            let busy = blocker(l.groups, texts(l.running@), name);
            let legs = l.cfg.reference_channel is Some || l.cfg.reference_port is Some;
            let output = output_of(l.cfg@, texts(l.playback@));
            let input = input_of(l.cfg@, texts(l.capture@));
            let ref_input = ref_input_of(l.cfg@, texts(l.capture@));
            let ref_output = ref_output_of(l.cfg@, texts(l.playback@));
            &&& refusal is None <==> busy is None && legs && output is Ok && input is Ok
                && ref_input is Ok && ref_output is Ok
            &&& busy matches Some(w) ==> refusal == Some(refusal_reply(busy_text(w)))
            &&& busy is None && !legs ==> refusal == Some(refusal_reply(NO_REFERENCE@))
            &&& busy is None && legs ==> (output matches Err(why) ==> refusal == Some(
                refusal_reply(why),
            ))
            &&& busy is None && legs && output is Ok ==> (input matches Err(why) ==> refusal
                == Some(refusal_reply(why)))
            &&& busy is None && legs && output is Ok && input is Ok ==> (ref_input matches Err(why)
                ==> refusal == Some(refusal_reply(why)))
            &&& busy is None && legs && output is Ok && input is Ok && ref_input is Ok ==> (
            ref_output matches Err(why) ==> refusal == Some(refusal_reply(why)))
        }),
{
}

/// The meter's tests run where they are asked for and a meter is configured;
/// a DUT is compared where that is asked for, at the level that is asked for,
/// else at -20 dBFS.
pub proof fn a_test_is_as_requested(
    hardware: HardwarePlan,
    dut: DutPlan,
    l: &Launch,
    cmd: JsonV,
)
    requires
        hardware.answers(l, cmd),
        dut.answers(l, cmd),
    ensures
        hardware.dmm ==> l.cfg.dmm_host is Some && bool_field(cmd, "dmm"@) == Some(true),
        !hardware.dmm ==> l.cfg.dmm_host is None || bool_field(cmd, "dmm"@) != Some(true),
        dut.compare <==> bool_field(cmd, "compare"@) == Some(true),
        double_field(cmd, "level_dbfs"@) matches Some(x) ==> dut.level_dbfs == x,
        double_field(cmd, "level_dbfs"@) is None ==> dut.level_dbfs == (Double {
            bits: 0xC034_0000_0000_0000,
        }),
        hardware.ports.resolved(l),
        dut.ports.resolved(l),
{
}

/// A wait ends as soon as there is a reason to end it, and not before.
pub proof fn a_wait_ends_for_a_reason(stopped: bool, late: bool, replied: bool)
    ensures
        stopped ==> wait_over(stopped, late, replied),
        late ==> wait_over(stopped, late, replied),
        replied ==> wait_over(stopped, late, replied),
        wait_over(stopped, late, replied) ==> stopped || late || replied,
{
}

} // verus!
