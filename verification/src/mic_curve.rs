//! `calibrate_mic_curve`: attaches a microphone's frequency-response curve to
//! a pair of channels, or clears it.
use vstd::prelude::*;

use crate::calibration::{Calibration, MicResponse};
use crate::config::Config;
use crate::double::Single;
use crate::gate::key_text;
use crate::json::{fields_read_back, Json, JsonV, opt_text, views};
use crate::settings::{ok, ok_reply};
use crate::text::{dec, decimal, quote, quoted, str_eq};
use crate::wire::{
    element_name, element_path, Expected, finite_single, finite_single_of, get_str, opt_array,
    opt_u32, opt_u32_of, refusal_reply, refuse, refused, str_field, trailer_views, u32_of,
    WireError, WireErrorV,
};

verus! {

/// The valid value beside a refused one.
#[derive(Debug)]
pub struct Paired {
    pub path: String,
    pub value: Single,
    pub unit: &'static str,
}

/// What a pair holds.
#[verifier::ext_equal]
pub struct PairedV {
    pub path: Seq<char>,
    pub value: Single,
    pub unit: Seq<char>,
}

impl Paired {
    pub open spec fn view(&self) -> PairedV {
        PairedV { path: self.path@, value: self.value, unit: self.unit@ }
    }
}

/// Why an uploaded curve cannot be read.
#[derive(Debug)]
pub enum CurveFault {
    /// A field or an element is not what it should be.
    Field { error: WireError, paired: Option<Paired> },
    /// A list is missing or empty, or the two differ in length.
    Lengths { freqs: Option<usize>, gains: Option<usize> },
}

/// What a fault says.
#[verifier::ext_equal]
pub enum CurveFaultV {
    Field { error: WireErrorV, paired: Option<PairedV> },
    Lengths { freqs: Option<usize>, gains: Option<usize> },
}

/// The view of an optional pair.
pub open spec fn paired_view(p: Option<Paired>) -> Option<PairedV> {
    match p {
        Some(x) => Some(x@),
        None => None,
    }
}

impl CurveFault {
    pub open spec fn view(&self) -> CurveFaultV {
        match *self {
            CurveFault::Field { error, paired } => CurveFaultV::Field {
                error: error@,
                paired: paired_view(paired),
            },
            CurveFault::Lengths { freqs, gains } => CurveFaultV::Lengths { freqs, gains },
        }
    }
}

/// The fault of the pair of elements at `i`: the frequency is looked at
/// first, and a refused element names its valid partner.
pub open spec fn element_fault(f: JsonV, g: JsonV, i: nat) -> Option<CurveFaultV> {
    match (finite_single_of(f), finite_single_of(g)) {
        (Some(_), Some(_)) => None,
        (None, gain) => Some(
            CurveFaultV::Field {
                error: refused(f, element_path("freqs_hz"@, i), Expected::FiniteNumber),
                paired: match gain {
                    Some(x) => Some(
                        PairedV { path: element_path("gain_db"@, i), value: x, unit: " dB"@ },
                    ),
                    None => None,
                },
            },
        ),
        (Some(x), None) => Some(
            CurveFaultV::Field {
                error: refused(g, element_path("gain_db"@, i), Expected::FiniteNumber),
                paired: Some(
                    PairedV { path: element_path("freqs_hz"@, i), value: x, unit: " Hz"@ },
                ),
            },
        ),
    }
}

/// The first fault of the elements, by ascending index.
pub open spec fn first_fault(fs: Seq<JsonV>, gs: Seq<JsonV>, from: nat) -> Option<CurveFaultV>
    decreases fs.len() - from,
{
    if from >= fs.len() {
        None
    } else {
        match element_fault(fs[from as int], gs[from as int], from) {
            Some(e) => Some(e),
            None => first_fault(fs, gs, from + 1),
        }
    }
}

/// The numbers of a list, as singles.
pub open spec fn singles_of(vs: Seq<JsonV>) -> Seq<Single> {
    vs.map_values(|v: JsonV| finite_single_of(v)->0)
}

/// A field that is present and no array.
pub open spec fn array_fault(cmd: JsonV, key: Seq<char>) -> Option<WireErrorV> {
    match cmd.field(key) {
        Some(v) => match v.arr_of() {
            Some(_) => None,
            None => Some(refused(v, key, Expected::Array)),
        },
        None => None,
    }
}

/// The array in a field.
pub open spec fn array_in(cmd: JsonV, key: Seq<char>) -> Option<Seq<JsonV>> {
    match cmd.field(key) {
        Some(v) => v.arr_of(),
        None => None,
    }
}

/// The length of an optional list.
pub open spec fn length_of(vs: Option<Seq<JsonV>>) -> Option<usize> {
    match vs {
        Some(s) => Some(s.len() as usize),
        None => None,
    }
}

/// The curve of a request: both fields are lists, of one non-zero length, and
/// every element is a number.
pub open spec fn curve_of(cmd: JsonV) -> Result<(Seq<Single>, Seq<Single>), CurveFaultV> {
    match array_fault(cmd, "freqs_hz"@) {
        Some(error) => Err(CurveFaultV::Field { error, paired: None }),
        None => match array_fault(cmd, "gain_db"@) {
            Some(error) => Err(CurveFaultV::Field { error, paired: None }),
            None => {
                let freqs = array_in(cmd, "freqs_hz"@);
                let gains = array_in(cmd, "gain_db"@);
                if freqs is Some && gains is Some && freqs->0.len() > 0 && freqs->0.len()
                    == gains->0.len() {
                    match first_fault(freqs->0, gains->0, 0) {
                        Some(e) => Err(e),
                        None => Ok((singles_of(freqs->0), singles_of(gains->0))),
                    }
                } else {
                    Err(
                        CurveFaultV::Lengths {
                            freqs: length_of(freqs),
                            gains: length_of(gains),
                        },
                    )
                }
            },
        },
    }
}

/// The length of an optional list.
fn len_of(items: Option<&Vec<Json>>) -> (r: Option<usize>)
    ensures
        r == (match items {
            Some(v) => Some(v@.len() as usize),
            None => None,
        }),
{
    match items {
        Some(v) => Some(v.len()),
        None => None,
    }
}

/// Reads a curve, positionally: any invalid element refuses the whole upload,
/// so that no frequency is ever paired with another one's gain.
pub fn parse_curve(cmd: &Json) -> (r: Result<(Vec<Single>, Vec<Single>), CurveFault>)
    ensures
        match r {
            Ok(c) => curve_of(cmd@) == Ok::<(Seq<Single>, Seq<Single>), CurveFaultV>(
                (c.0@, c.1@),
            ),
            Err(e) => curve_of(cmd@) == Err::<(Seq<Single>, Seq<Single>), CurveFaultV>(e@),
        },
{
    let freqs = match opt_array(cmd, "freqs_hz") {
        Ok(v) => v,
        Err(error) => return Err(CurveFault::Field { error, paired: None }),
    };
    let gains = match opt_array(cmd, "gain_db") {
        Ok(v) => v,
        Err(error) => return Err(CurveFault::Field { error, paired: None }),
    };
    let (freqs, gains): (&Vec<Json>, &Vec<Json>) = match (freqs, gains) {
        (Some(f), Some(g)) => {
            if f.len() > 0 && f.len() == g.len() {
                (f, g)
            } else {
                return Err(CurveFault::Lengths { freqs: Some(f.len()), gains: Some(g.len()) });
            }
        },
        (f, g) => return Err(CurveFault::Lengths { freqs: len_of(f), gains: len_of(g) }),
    };
    let ghost fs = views(freqs@);
    let ghost gs = views(gains@);
    let mut freqs_hz: Vec<Single> = Vec::new();
    let mut gain_db: Vec<Single> = Vec::new();
    let mut i: usize = 0;
    while i < freqs.len()
        invariant
            i <= freqs@.len(),
            freqs@.len() == gains@.len(),
            fs == views(freqs@),
            gs == views(gains@),
            curve_of(cmd@) == (match first_fault(fs, gs, 0) {
                Some(e) => Err::<(Seq<Single>, Seq<Single>), CurveFaultV>(e),
                None => Ok((singles_of(fs), singles_of(gs))),
            }),
            first_fault(fs, gs, 0) == first_fault(fs, gs, i as nat),
            freqs_hz@ == singles_of(fs.take(i as int)),
            gain_db@ == singles_of(gs.take(i as int)),
        decreases freqs@.len() - i,
    {
        assert(fs[i as int] == freqs@[i as int]@);
        assert(gs[i as int] == gains@[i as int]@);
        let f_path = element_name("freqs_hz", i);
        let g_path = element_name("gain_db", i);
        let f: Single = match finite_single(&freqs[i], f_path.as_str()) {
            Ok(f) => f,
            Err(error) => {
                let paired = match finite_single(&gains[i], g_path.as_str()) {
                    Ok(g) => Some(Paired { path: g_path, value: g, unit: " dB" }),
                    Err(_) => None,
                };
                return Err(CurveFault::Field { error, paired });
            },
        };
        let g: Single = match finite_single(&gains[i], g_path.as_str()) {
            Ok(g) => g,
            Err(error) => return Err(
                CurveFault::Field {
                    error,
                    paired: Some(Paired { path: f_path, value: f, unit: " Hz" }),
                },
            ),
        };
        freqs_hz.push(f);
        gain_db.push(g);
        proof {
            assert(fs.take(i + 1) =~= fs.take(i as int).push(fs[i as int]));
            assert(gs.take(i + 1) =~= gs.take(i as int).push(gs[i as int]));
            assert(singles_of(fs.take(i + 1)) =~= singles_of(fs.take(i as int)).push(f));
            assert(singles_of(gs.take(i + 1)) =~= singles_of(gs.take(i as int)).push(g));
        }
        i = i + 1;
    }
    assert(fs.take(i as int) =~= fs);
    assert(gs.take(i as int) =~= gs);
    Ok((freqs_hz, gain_db))
}

/// Why a curve was not saved.
#[derive(Debug)]
pub enum CurveRefusal {
    Fault(CurveFault),
    TooSparse { points: usize, least: usize },
    TooDense { points: usize, most: usize },
    NotIncreasing,
    UnknownOp { op: String },
}

/// What a refusal says.
#[verifier::ext_equal]
pub enum CurveRefusalV {
    Fault(CurveFaultV),
    TooSparse { points: nat, least: nat },
    TooDense { points: nat, most: nat },
    NotIncreasing,
    UnknownOp { op: Seq<char> },
}

/// A length, or that the list is missing.
pub open spec fn length_text(n: Option<usize>) -> Seq<char> {
    match n {
        Some(k) => dec(k as nat),
        None => "missing"@,
    }
}

fn length_shown(n: Option<usize>) -> (r: String)
    ensures
        r@ == length_text(n),
{
    match n {
        Some(k) => decimal(k as u64),
        None => "missing".to_owned(),
    }
}

/// The trailers of a refused field: its partner, if it has a valid one, and
/// that nothing was written. `shown` is the partner's value to three decimals.
pub open spec fn fault_trailers(paired: Option<PairedV>, shown: Seq<char>) -> Seq<
    (Seq<char>, Seq<char>),
> {
    match paired {
        Some(p) => seq![
            ("paired field"@, p.path + " = "@ + shown + p.unit),
            ("data"@, "existing curve unchanged"@),
        ],
        None => seq![("data"@, "existing curve unchanged"@)],
    }
}

impl CurveRefusal {
    pub open spec fn view(&self) -> CurveRefusalV {
        match *self {
            CurveRefusal::Fault(f) => CurveRefusalV::Fault(f@),
            CurveRefusal::TooSparse { points, least } => CurveRefusalV::TooSparse {
                points: points as nat,
                least: least as nat,
            },
            CurveRefusal::TooDense { points, most } => CurveRefusalV::TooDense {
                points: points as nat,
                most: most as nat,
            },
            CurveRefusal::NotIncreasing => CurveRefusalV::NotIncreasing,
            CurveRefusal::UnknownOp { op } => CurveRefusalV::UnknownOp { op: op@ },
        }
    }

    /// The value that the refusal prints, if it prints one.
    pub fn printed(&self) -> (r: Option<Single>)
        ensures
            r == (match self@ {
                CurveRefusalV::Fault(CurveFaultV::Field { paired: Some(p), .. }) => Some(p.value),
                _ => None,
            }),
    {
        match self {
            CurveRefusal::Fault(CurveFault::Field { paired: Some(p), .. }) => Some(p.value),
            _ => None,
        }
    }

    /// The reply. `shown` is the printed value to three decimals.
    pub fn reply(&self, shown: &str) -> (r: Json)
        ensures
            r@ == refusal_reply(self@.text(shown@)),
    {
        match self {
            CurveRefusal::Fault(CurveFault::Field { error, paired }) => {
                let mut trailers: Vec<(String, String)> = Vec::new();
                match paired {
                    Some(p) => {
                        let value = p.path.clone().concat(" = ").concat(shown).concat(p.unit);
                        trailers.push(("paired field".to_owned(), value));
                    },
                    None => {},
                }
                trailers.push(("data".to_owned(), "existing curve unchanged".to_owned()));
                assert(trailer_views(trailers@) =~= fault_trailers(paired_view(*paired), shown@));
                refuse(error.refusal("mic curve not saved", trailers).as_str())
            },
            CurveRefusal::Fault(CurveFault::Lengths { freqs, gains }) => {
                let text =
                    "calibrate_mic_curve set: missing/mismatched freqs_hz/gain_db                  (freqs_hz: ".to_owned().concat(
                length_shown(*freqs).as_str()).concat(", gain_db: ").concat(
                    length_shown(*gains).as_str(),
                ).concat(")");
                refuse(text.as_str())
            },
            CurveRefusal::TooSparse { points, least } => {
                let text = "curve too sparse: ".to_owned().concat(
                    decimal(*points as u64).as_str(),
                ).concat(" < ").concat(decimal(*least as u64).as_str());
                refuse(text.as_str())
            },
            CurveRefusal::TooDense { points, most } => {
                let text = "curve too dense: ".to_owned().concat(
                    decimal(*points as u64).as_str(),
                ).concat(" > ").concat(decimal(*most as u64).as_str());
                refuse(text.as_str())
            },
            CurveRefusal::NotIncreasing => refuse(
                "freqs_hz must be strictly increasing and finite",
            ),
            CurveRefusal::UnknownOp { op } => {
                let text = "calibrate_mic_curve: unknown op ".to_owned().concat(
                    quote(op.as_str()).as_str(),
                ).concat(", expected set/clear");
                refuse(text.as_str())
            },
        }
    }
}

impl CurveRefusalV {
    /// The text of a refusal. `shown` is the partner's value to three
    /// decimals.
    pub open spec fn text(self, shown: Seq<char>) -> Seq<char> {
        match self {
            CurveRefusalV::Fault(CurveFaultV::Field { error, paired }) => error.text(
                "mic curve not saved"@,
                fault_trailers(paired, shown),
            ),
            CurveRefusalV::Fault(CurveFaultV::Lengths { freqs, gains }) =>
            "calibrate_mic_curve set: missing/mismatched freqs_hz/gain_db                  (freqs_hz: "@
                + length_text(freqs) + ", gain_db: "@ + length_text(gains) + ")"@,
            CurveRefusalV::TooSparse { points, least } => "curve too sparse: "@ + dec(points)
                + " < "@ + dec(least),
            CurveRefusalV::TooDense { points, most } => "curve too dense: "@ + dec(points)
                + " > "@ + dec(most),
            CurveRefusalV::NotIncreasing => "freqs_hz must be strictly increasing and finite"@,
            CurveRefusalV::UnknownOp { op } => "calibrate_mic_curve: unknown op "@ + quoted(op)
                + ", expected set/clear"@,
        }
    }
}

/// The operation of a request.
pub open spec fn op_of(cmd: JsonV) -> Seq<char> {
    match str_field(cmd, "op"@) {
        Some(s) => s,
        None => "set"@,
    }
}

fn get_op(cmd: &Json) -> (r: String)
    ensures
        r@ == op_of(cmd@),
{
    match get_str(cmd, "op") {
        Some(s) => s.to_owned(),
        None => "set".to_owned(),
    }
}

/// The pair of channels of a request, each checked, the output first.
pub open spec fn target_of(cmd: JsonV, out_ch: u32, in_ch: u32) -> Result<(u32, u32), WireErrorV> {
    match opt_u32_of(cmd, "output_channel"@) {
        Err(e) => Err(e),
        Ok(o) => match opt_u32_of(cmd, "input_channel"@) {
            Err(e) => Err(e),
            Ok(i) => Ok(
                (
                    match o {
                        Some(n) => n,
                        None => out_ch,
                    },
                    match i {
                        Some(n) => n,
                        None => in_ch,
                    },
                ),
            ),
        },
    }
}

/// The headline of a refused channel.
pub open spec fn target_headline(cmd: JsonV) -> Seq<char> {
    if op_of(cmd) == "clear"@ {
        "mic curve not cleared"@
    } else {
        "mic curve not saved"@
    }
}

/// The entry that a request is about. A malformed channel is refused before
/// any entry is looked up.
pub fn curve_target(cmd: &Json, cfg: &Config) -> (r: Result<(u32, u32), Json>)
    ensures
        match target_of(cmd@, cfg.output_channel, cfg.input_channel) {
            Ok(pair) => r == Ok::<(u32, u32), Json>(pair),
            Err(e) => r is Err && r->Err_0@ == refusal_reply(
                e.text(target_headline(cmd@), seq![("data"@, "existing curve unchanged"@)]),
            ),
        },
{
    let refusal: WireError = match opt_u32(cmd, "output_channel") {
        Err(e) => e,
        Ok(o) => match opt_u32(cmd, "input_channel") {
            Err(e) => e,
            Ok(i) => {
                let out_ch: u32 = match o {
                    Some(n) => n,
                    None => cfg.output_channel,
                };
                let in_ch: u32 = match i {
                    Some(n) => n,
                    None => cfg.input_channel,
                };
                return Ok((out_ch, in_ch));
            },
        },
    };
    let op = get_op(cmd);
    let headline = if str_eq(op.as_str(), "clear") {
        "mic curve not cleared"
    } else {
        "mic curve not saved"
    };
    let mut trailers: Vec<(String, String)> = Vec::new();
    trailers.push(("data".to_owned(), "existing curve unchanged".to_owned()));
    assert(trailer_views(trailers@) =~= seq![("data"@, "existing curve unchanged"@)]);
    Err(refuse(refusal.refusal(headline, trailers).as_str()))
}

/// How many points a curve may have.
#[derive(Debug, Clone, Copy)]
pub struct CurveLimits {
    pub least: usize,
    pub most: usize,
}

/// Strictly increasing.
pub open spec fn increasing(xs: Seq<Single>) -> bool {
    forall|i: int| 0 <= i < xs.len() - 1 ==> (#[trigger] xs[i]).below(xs[i + 1])
}

fn is_increasing(xs: &Vec<Single>) -> (r: bool)
    requires
        forall|i: int| 0 <= i < xs@.len() ==> !(#[trigger] xs@[i]).nan(),
    ensures
        r == increasing(xs@),
{
    let mut i: usize = 1;
    while i < xs.len()
        invariant
            1 <= i,
            i <= xs@.len() || i == 1,
            forall|k: int| 0 <= k < xs@.len() ==> !(#[trigger] xs@[k]).nan(),
            forall|k: int| 0 <= k < i - 1 ==> (#[trigger] xs@[k]).below(xs@[k + 1]),
        decreases xs@.len() - i,
    {
        if xs[i].le(xs[i - 1]) {
            assert(!xs@[i - 1].below(xs@[(i - 1) + 1]));
            return false;
        }
        i = i + 1;
    }
    true
}

/// The first reason to refuse an operation: an unknown one, an unreadable
/// curve, its number of points, its order.
pub open spec fn curve_refusal(cmd: JsonV, limits: CurveLimits) -> Option<CurveRefusalV> {
    if op_of(cmd) == "clear"@ {
        None
    } else if op_of(cmd) == "set"@ {
        match curve_of(cmd) {
            Err(e) => Some(CurveRefusalV::Fault(e)),
            Ok(c) => if c.0.len() < limits.least {
                Some(
                    CurveRefusalV::TooSparse { points: c.0.len(), least: limits.least as nat },
                )
            } else if c.0.len() > limits.most {
                Some(CurveRefusalV::TooDense { points: c.0.len(), most: limits.most as nat })
            } else if !increasing(c.0) {
                Some(CurveRefusalV::NotIncreasing)
            } else {
                None
            },
        }
    } else {
        Some(CurveRefusalV::UnknownOp { op: op_of(cmd) })
    }
}

/// The entries differ in their curve at most.
pub open spec fn same_but_curve(a: &Calibration, b: &Calibration) -> bool {
    *a == (Calibration { mic_response: a.mic_response, ..*b })
}

/// A stored curve is sound: one gain to each frequency, all finite, the
/// frequencies strictly increasing.
pub open spec fn sound_curve(r: &MicResponse) -> bool {
    &&& r.freqs_hz@.len() == r.gain_db@.len()
    &&& increasing(r.freqs_hz@)
    &&& forall|i: int| 0 <= i < r.freqs_hz@.len() ==> (#[trigger] r.freqs_hz@[i]).finite()
    &&& forall|i: int| 0 <= i < r.gain_db@.len() ==> (#[trigger] r.gain_db@[i]).finite()
}

proof fn read_curves_are_finite(fs: Seq<JsonV>, gs: Seq<JsonV>, from: nat)
    requires
        fs.len() == gs.len(),
        first_fault(fs, gs, from) is None,
    ensures
        forall|i: int| from <= i < fs.len() ==> (#[trigger] singles_of(fs)[i]).finite(),
        forall|i: int| from <= i < fs.len() ==> (#[trigger] singles_of(gs)[i]).finite(),
    decreases fs.len() - from,
{
    if from < fs.len() {
        read_curves_are_finite(fs, gs, from + 1);
    }
}

/// `calibrate_mic_curve` on the entry it is about: sets or clears its curve,
/// and leaves the rest of it, and all of it on a refusal, as it was.
pub fn calibrate_mic_curve(
    cmd: &Json,
    cal: &mut Calibration,
    limits: CurveLimits,
    imported_at: &str,
) -> (r: Result<(), CurveRefusal>)
    ensures
        match r {
            Err(e) => {
                &&& curve_refusal(cmd@, limits) == Some(e@)
                &&& *final(cal) == *old(cal)
            },
            Ok(_) => {
                &&& curve_refusal(cmd@, limits) is None
                &&& same_but_curve(final(cal), old(cal))
                &&& if op_of(cmd@) == "clear"@ {
                    final(cal).mic_response is None
                } else {
                    &&& final(cal).mic_response is Some
                    &&& curve_of(cmd@) == Ok::<(Seq<Single>, Seq<Single>), CurveFaultV>(
                        (
                            final(cal).mic_response->0.freqs_hz@,
                            final(cal).mic_response->0.gain_db@,
                        ),
                    )
                    &&& sound_curve(&final(cal).mic_response->0)
                    &&& opt_text(final(cal).mic_response->0.source_path) == str_field(
                        cmd@,
                        "source_path"@,
                    )
                    &&& final(cal).mic_response->0.imported_at@ == imported_at@
                }
            },
        },
{
    let op = get_op(cmd);
    if str_eq(op.as_str(), "clear") {
        cal.mic_response = None;
        return Ok(());
    }
    if !str_eq(op.as_str(), "set") {
        return Err(CurveRefusal::UnknownOp { op });
    }
    let (freqs_hz, gain_db) = match parse_curve(cmd) {
        Ok(c) => c,
        Err(e) => return Err(CurveRefusal::Fault(e)),
    };
    proof {
        let fs = array_in(cmd@, "freqs_hz"@)->0;
        let gs = array_in(cmd@, "gain_db"@)->0;
        read_curves_are_finite(fs, gs, 0);
    }
    if freqs_hz.len() < limits.least {
        return Err(CurveRefusal::TooSparse { points: freqs_hz.len(), least: limits.least });
    }
    if freqs_hz.len() > limits.most {
        return Err(CurveRefusal::TooDense { points: freqs_hz.len(), most: limits.most });
    }
    if !is_increasing(&freqs_hz) {
        return Err(CurveRefusal::NotIncreasing);
    }
    let source_path: Option<String> = match get_str(cmd, "source_path") {
        Some(s) => Some(s.to_owned()),
        None => None,
    };
    cal.mic_response = Some(
        MicResponse { freqs_hz, gain_db, source_path, imported_at: imported_at.to_owned() },
    );
    Ok(())
}

/// The points of an entry's curve.
pub open spec fn loaded_points(cal: &Calibration) -> nat {
    match cal.mic_response {
        Some(r) => r.freqs_hz@.len(),
        None => 0,
    }
}

/// The reply once the entry is saved, or could not be.
pub open spec fn saved_reply(cal: &Calibration, save_err: Option<Seq<char>>) -> JsonV {
    match save_err {
        Some(e) => refusal_reply("save failed: "@ + e),
        None => ok_reply().with(
            "key"@,
            JsonV::Str(key_text(cal.output_channel, cal.input_channel)),
        ).with("loaded"@, JsonV::Uint(loaded_points(cal) as u64)),
    }
}

/// The reply once the entry is saved, or could not be.
pub fn curve_saved(cal: &Calibration, save_err: &Option<String>) -> (r: Json)
    ensures
        r@ == saved_reply(cal, opt_text(*save_err)),
{
    match save_err {
        Some(e) => refuse("save failed: ".to_owned().concat(e.as_str()).as_str()),
        None => {
            let loaded: u64 = match &cal.mic_response {
                Some(r) => r.freqs_hz.len() as u64,
                None => 0,
            };
            ok().with("key", Json::string(cal.key().as_str())).with("loaded", Json::Uint(loaded))
        },
    }
}

/// A curve that is stored keeps the pairing of the request: the gain at each
/// index is the one that came with the frequency at that index.
pub proof fn each_frequency_keeps_its_gain(cmd: JsonV)
    requires
        curve_of(cmd) is Ok,
    ensures
        ({
            let c = curve_of(cmd)->Ok_0;
            let fs = array_in(cmd, "freqs_hz"@)->0;
            let gs = array_in(cmd, "gain_db"@)->0;
            &&& c.0.len() == c.1.len() == fs.len() == gs.len()
            &&& c.0.len() > 0
            &&& forall|i: int|
                0 <= i < c.0.len() ==> finite_single_of(#[trigger] fs[i]) == Some(c.0[i])
                    && finite_single_of(gs[i]) == Some(c.1[i])
        }),
{
    let fs = array_in(cmd, "freqs_hz"@)->0;
    let gs = array_in(cmd, "gain_db"@)->0;
    no_fault_from(fs, gs, 0);
}

proof fn no_fault_from(fs: Seq<JsonV>, gs: Seq<JsonV>, from: nat)
    requires
        fs.len() == gs.len(),
        first_fault(fs, gs, from) is None,
    ensures
        forall|i: int|
            from <= i < fs.len() ==> finite_single_of(#[trigger] fs[i]) is Some
                && finite_single_of(gs[i]) is Some,
    decreases fs.len() - from,
{
    if from < fs.len() {
        no_fault_from(fs, gs, from + 1);
    }
}

/// A refused element names itself and, with its own unit, the partner that
/// was valid; where both are refused the frequency is named and no partner.
pub proof fn a_refused_element_names_its_partner(f: JsonV, g: JsonV, i: nat)
    ensures
        element_fault(f, g, i) is None <==> finite_single_of(f) is Some && finite_single_of(g)
            is Some,
        element_fault(f, g, i) matches Some(e) ==> e is Field,
        finite_single_of(f) is None ==> element_fault(f, g, i)->0->error == refused(
            f,
            element_path("freqs_hz"@, i),
            Expected::FiniteNumber,
        ),
        finite_single_of(f) is Some && finite_single_of(g) is None ==> element_fault(
            f,
            g,
            i,
        )->0->error == refused(g, element_path("gain_db"@, i), Expected::FiniteNumber),
        finite_single_of(f) is None && finite_single_of(g) is None ==> element_fault(
            f,
            g,
            i,
        )->0->paired is None,
        finite_single_of(f) is None && finite_single_of(g) is Some ==> {
            let p = element_fault(f, g, i)->0->paired;
            &&& p is Some && p->0.path == element_path("gain_db"@, i)
            &&& p->0.value == finite_single_of(g)->0 && p->0.unit == " dB"@
        },
        finite_single_of(f) is Some && finite_single_of(g) is None ==> {
            let p = element_fault(f, g, i)->0->paired;
            &&& p is Some && p->0.path == element_path("freqs_hz"@, i)
            &&& p->0.value == finite_single_of(f)->0 && p->0.unit == " Hz"@
        },
{
}

/// The fault that is told is that of the first index with one.
pub proof fn the_first_faulty_element_is_told(fs: Seq<JsonV>, gs: Seq<JsonV>, from: nat, i: nat)
    requires
        from <= i < fs.len(),
        element_fault(fs[i as int], gs[i as int], i) is Some,
        forall|k: nat| from <= k < i ==> #[trigger] element_fault(fs[k as int], gs[k as int], k) is None,
    ensures
        first_fault(fs, gs, from) == element_fault(fs[i as int], gs[i as int], i),
    decreases i - from,
{
    if from < i {
        assert(element_fault(fs[from as int], gs[from as int], from) is None);
        the_first_faulty_element_is_told(fs, gs, from + 1, i);
    }
}

/// A curve is refused for a field that is no list, the frequencies first,
/// then for its lengths, then for its elements.
pub proof fn lists_are_checked_before_elements(cmd: JsonV)
    ensures
        cmd.field("freqs_hz"@) matches Some(v) ==> (!(v is Arr) ==> curve_of(cmd) == Err::<
            (Seq<Single>, Seq<Single>),
            CurveFaultV,
        >(CurveFaultV::Field { error: refused(v, "freqs_hz"@, Expected::Array), paired: None })),
        array_fault(cmd, "freqs_hz"@) is None ==> (cmd.field("gain_db"@) matches Some(v) ==> (!(
        v is Arr) ==> curve_of(cmd) == Err::<(Seq<Single>, Seq<Single>), CurveFaultV>(
            CurveFaultV::Field { error: refused(v, "gain_db"@, Expected::Array), paired: None },
        ))),
        cmd.field("freqs_hz"@) is None && cmd.field("gain_db"@) is None ==> curve_of(cmd) == Err::<
            (Seq<Single>, Seq<Single>),
            CurveFaultV,
        >(CurveFaultV::Lengths { freqs: None, gains: None }),
        cmd.field("freqs_hz"@) matches Some(JsonV::Arr(fs)) ==> (cmd.field("gain_db"@) is None
            && fs.len() <= usize::MAX ==> (curve_of(cmd) matches Err(
            CurveFaultV::Lengths { freqs, gains },
        ) && freqs is Some && freqs->0 == fs.len() && gains is None)),
        cmd.field("freqs_hz"@) matches Some(JsonV::Arr(fs)) ==> (cmd.field("gain_db"@) matches Some(
            JsonV::Arr(gs),
        ) ==> (fs.len() != gs.len() && fs.len() <= usize::MAX && gs.len() <= usize::MAX
            ==> (curve_of(cmd) matches Err(CurveFaultV::Lengths { freqs, gains }) && freqs is Some
            && freqs->0 == fs.len() && gains is Some && gains->0 == gs.len()))),
{
}

/// Clearing is never refused; a curve is set exactly where it can be read, has
/// as many points as allowed and its frequencies increase.
pub proof fn a_curve_is_set_where_it_is_sound(cmd: JsonV, limits: CurveLimits)
    ensures
        op_of(cmd) == "clear"@ ==> curve_refusal(cmd, limits) is None,
        op_of(cmd) != "clear"@ && op_of(cmd) != "set"@ ==> curve_refusal(cmd, limits) == Some(
            CurveRefusalV::UnknownOp { op: op_of(cmd) },
        ),
        str_field(cmd, "op"@) is None ==> op_of(cmd) == "set"@,
        str_field(cmd, "op"@) matches Some(s) ==> op_of(cmd) == s,
        op_of(cmd) == "set"@ ==> {
            &&& curve_refusal(cmd, limits) is None <==> curve_of(cmd) is Ok && limits.least
                <= curve_of(cmd)->Ok_0.0.len() <= limits.most && increasing(curve_of(cmd)->Ok_0.0)
            &&& curve_of(cmd) matches Err(e) ==> curve_refusal(cmd, limits) == Some(
                CurveRefusalV::Fault(e),
            )
            &&& curve_refusal(cmd, limits) matches Some(CurveRefusalV::TooSparse { points, least })
                ==> points < least && least == limits.least && points == curve_of(
                cmd,
            )->Ok_0.0.len()
            &&& curve_refusal(cmd, limits) matches Some(CurveRefusalV::TooDense { points, most })
                ==> points > most && most == limits.most && points == curve_of(cmd)->Ok_0.0.len()
        },
{
    reveal_strlit("set");
    reveal_strlit("clear");
    assert("set"@.len() == 3 && "clear"@.len() == 5);
}

/// Each frequency of a curve that is set is above the one before it.
pub proof fn frequencies_increase(xs: Seq<Single>, i: int)
    requires
        increasing(xs),
        0 < i < xs.len(),
    ensures
        xs[i - 1].below(xs[i]),
{
}

/// A request is about the channels that it names, and about those of the
/// configuration where it names none.
pub proof fn each_channel_has_its_own_field(cmd: JsonV, out_ch: u32, in_ch: u32)
    requires
        target_of(cmd, out_ch, in_ch) is Ok,
    ensures
        cmd.field("output_channel"@) matches Some(JsonV::Uint(n)) ==> target_of(
            cmd,
            out_ch,
            in_ch,
        )->Ok_0.0 == n,
        cmd.field("input_channel"@) matches Some(JsonV::Uint(n)) ==> target_of(
            cmd,
            out_ch,
            in_ch,
        )->Ok_0.1 == n,
        cmd.field("output_channel"@) is None ==> target_of(cmd, out_ch, in_ch)->Ok_0.0 == out_ch,
        cmd.field("input_channel"@) is None ==> target_of(cmd, out_ch, in_ch)->Ok_0.1 == in_ch,
{
}

/// A malformed channel refuses the request, the output first, under the
/// headline of its operation.
pub proof fn the_first_malformed_channel_is_told(cmd: JsonV, out_ch: u32, in_ch: u32)
    ensures
        cmd.field("output_channel"@) matches Some(v) ==> (u32_of(v) is None ==> target_of(
            cmd,
            out_ch,
            in_ch,
        ) == Err::<(u32, u32), WireErrorV>(refused(v, "output_channel"@, Expected::Uint32))),
        cmd.field("output_channel"@) is None ==> (cmd.field("input_channel"@) matches Some(v) ==> (
        u32_of(v) is None ==> target_of(cmd, out_ch, in_ch) == Err::<(u32, u32), WireErrorV>(
            refused(v, "input_channel"@, Expected::Uint32),
        ))),
        str_field(cmd, "op"@) == Some("clear"@) ==> target_headline(cmd) == "mic curve not cleared"@,
        str_field(cmd, "op"@) != Some("clear"@) ==> target_headline(cmd) == "mic curve not saved"@,
{
    reveal_strlit("set");
    reveal_strlit("clear");
    assert("set"@.len() == 3 && "clear"@.len() == 5);
}

/// A saved curve is told with the pair it belongs to and how many points it
/// has; a cleared one has none.
pub proof fn a_saved_curve_is_told_by_name(cal: &Calibration, why: Seq<char>)
    ensures
        saved_reply(cal, None).field("ok"@) == Some(JsonV::Bool(true)),
        saved_reply(cal, None).field("key"@) == Some(
            JsonV::Str(key_text(cal.output_channel, cal.input_channel)),
        ),
        cal.mic_response matches Some(m) ==> saved_reply(cal, None).field("loaded"@) == Some(
            JsonV::Uint(m.freqs_hz@.len() as u64),
        ),
        cal.mic_response is None ==> saved_reply(cal, None).field("loaded"@) == Some(JsonV::Uint(0)),
        saved_reply(cal, Some(why)) == refusal_reply("save failed: "@ + why),
{
    fields_read_back();
    reveal_strlit("ok");
    reveal_strlit("key");
    reveal_strlit("loaded");
    assert("ok"@.len() == 2);
    assert("key"@.len() == 3);
    assert("loaded"@.len() == 6);
}

/// A refusal names the valid partner of what was refused, if there is one,
/// and always says that the stored curve stands.
pub proof fn a_refusal_says_the_curve_stands(
    paired: Option<PairedV>,
    shown: Seq<char>,
    n: usize,
    m: usize,
)
    ensures
        fault_trailers(paired, shown).last() == ("data"@, "existing curve unchanged"@),
        paired is None ==> fault_trailers(paired, shown).len() == 1,
        paired matches Some(p) ==> fault_trailers(paired, shown).len() == 2 && fault_trailers(
            paired,
            shown,
        )[0] == ("paired field"@, p.path + " = "@ + shown + p.unit),
        length_text(None) == "missing"@,
        length_text(Some(n)) == dec(n as nat),
        (CurveRefusalV::TooSparse { points: n as nat, least: m as nat }).text(shown)
            == "curve too sparse: "@ + dec(n as nat) + " < "@ + dec(m as nat),
        (CurveRefusalV::TooDense { points: n as nat, most: m as nat }).text(shown)
            == "curve too dense: "@ + dec(n as nat) + " > "@ + dec(m as nat),
{
}

/// In a sound curve every frequency and every gain is finite, and there is a
/// gain to each frequency.
pub proof fn a_sound_curve_is_finite(r: &MicResponse, i: int)
    requires
        sound_curve(r),
    ensures
        r.freqs_hz@.len() == r.gain_db@.len(),
        0 <= i < r.freqs_hz@.len() ==> r.freqs_hz@[i].finite() && r.gain_db@[i].finite(),
        0 < i < r.freqs_hz@.len() ==> r.freqs_hz@[i - 1].below(r.freqs_hz@[i]),
{
}

/// Setting or clearing a curve leaves the rest of the entry as it was.
pub proof fn a_curve_changes_alone(a: &Calibration, b: &Calibration)
    requires
        same_but_curve(a, b),
        a.mic_response == b.mic_response,
    ensures
        *a == *b,
{
}

} // verus!
