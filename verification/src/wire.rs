//! Reading request fields, and the layout of refusals.
//!
//! A field is checked, never narrowed: an integer outside `u32`, a number
//! that no finite single holds, or a value of another type refuses the
//! request and names what arrived.
use vstd::prelude::*;

use crate::double::{Double, Single};
use crate::echo::{bounded, cut, json_text, quote_json};
use crate::json::{fields_read_back, Json, JsonV, views};
use crate::text::{blanks, dec, decimal, spaces};

verus! {

/// Why a number is out of its domain.
#[derive(Clone, Debug, PartialEq, Eq)]
pub enum Problem {
    /// Zero, negative or not finite.
    NotPositive,
    /// Above the limit, in `unit`.
    AtMost { limit: u32, unit: &'static str },
}

/// What a field should have held.
#[derive(Clone, Copy, Debug, PartialEq, Eq, Structural)]
pub enum Expected {
    Uint32,
    Array,
    FiniteNumber,
}

/// A field that does not hold what it should.
#[derive(Debug)]
pub struct WireError {
    pub field: String,
    pub expected: Expected,
    pub received: String,
}

/// The refusal of a field.
#[verifier::ext_equal]
pub struct WireErrorV {
    pub field: Seq<char>,
    pub expected: Expected,
    pub received: Seq<char>,
}

/// A received value, quoted up to a fixed length.
pub open spec fn received_text(v: JsonV) -> Seq<char> {
    bounded(json_text(v))
}

/// What an `Expected` reads as in a refusal.
pub open spec fn expectation(e: Expected) -> Seq<char> {
    match e {
        Expected::Uint32 => " is not an integer from 0 to 4294967295"@,
        Expected::Array => " is not an array"@,
        Expected::FiniteNumber => " is not a finite number"@,
    }
}

/// The keys and values of a list of trailers.
pub open spec fn trailer_views(t: Seq<(String, String)>) -> Seq<(Seq<char>, Seq<char>)> {
    t.map_values(|p: (String, String)| (p.0@, p.1@))
}

/// The length of the longest key.
pub open spec fn key_width(t: Seq<(Seq<char>, Seq<char>)>) -> nat
    decreases t.len(),
{
    if t.len() == 0 {
        0
    } else {
        let w = key_width(t.drop_last());
        if t.last().0.len() > w {
            t.last().0.len()
        } else {
            w
        }
    }
}

/// One line per trailer, indented, with the values aligned in one column.
pub open spec fn trailer_lines(t: Seq<(Seq<char>, Seq<char>)>, width: nat) -> Seq<char>
    decreases t.len(),
{
    if t.len() == 0 {
        Seq::empty()
    } else {
        trailer_lines(t.drop_last(), width) + "\n         "@ + t.last().0 + blanks(
            (width - t.last().0.len() + 2) as nat,
        ) + t.last().1
    }
}

/// A refusal: headline and reason on one line, then the trailers.
pub open spec fn refusal_text(
    headline: Seq<char>,
    what: Seq<char>,
    trailers: Seq<(Seq<char>, Seq<char>)>,
) -> Seq<char> {
    headline + " \u{2014} "@ + what + trailer_lines(trailers, key_width(trailers))
}

/// A refusal: `headline — what`, then one indented line per trailer.
pub fn trailer_refusal(headline: &str, what: &str, trailers: &Vec<(String, String)>) -> (r: String)
    ensures
        r@ == refusal_text(headline@, what@, trailer_views(trailers@)),
{
    let ghost all = trailer_views(trailers@);
    let mut width: usize = 0;
    let mut i: usize = 0;
    assert(all.take(0) =~= Seq::empty());
    while i < trailers.len()
        invariant
            i <= trailers.len(),
            all == trailer_views(trailers@),
            width == key_width(all.take(i as int)),
        decreases trailers.len() - i,
    {
        proof {
            assert(all.take(i + 1).drop_last() =~= all.take(i as int));
            assert(all.take(i + 1).last() == (trailers@[i as int].0@, trailers@[i as int].1@));
        }
        let w: usize = trailers[i].0.as_str().unicode_len();
        if w > width {
            width = w;
        }
        i = i + 1;
    }
    assert(all.take(i as int) =~= all);
    let mut out = headline.to_owned().concat(" \u{2014} ").concat(what);
    let ghost head = out@;
    i = 0;
    while i < trailers.len()
        invariant
            i <= trailers.len(),
            all == trailer_views(trailers@),
            width == key_width(all),
            out@ == head + trailer_lines(all.take(i as int), width as nat),
        decreases trailers.len() - i,
    {
        proof {
            assert(all.take(i + 1).drop_last() =~= all.take(i as int));
            assert(all.take(i + 1).last() == (trailers@[i as int].0@, trailers@[i as int].1@));
            key_fits(all, i as int);
            reveal_strlit("  ");
        }
        let w: usize = trailers[i].0.as_str().unicode_len();
        out = out.concat("\n         ").concat(trailers[i].0.as_str()).concat(
            spaces(width - w).as_str(),
        ).concat("  ").concat(trailers[i].1.as_str());
        proof {
            let pad = blanks((width - w) as nat);
            assert(pad + "  "@ =~= blanks((width - w + 2) as nat));
            assert(out@ =~= head + trailer_lines(all.take(i + 1), width as nat));
        }
        i = i + 1;
    }
    assert(all.take(i as int) =~= all);
    out
}

proof fn key_fits(t: Seq<(Seq<char>, Seq<char>)>, i: int)
    requires
        0 <= i < t.len(),
    ensures
        t[i].0.len() <= key_width(t),
    decreases t.len(),
{
    if i < t.len() - 1 {
        key_fits(t.drop_last(), i);
    }
}

fn expectation_text(e: Expected) -> (r: String)
    ensures
        r@ == expectation(e),
{
    match e {
        Expected::Uint32 => " is not an integer from 0 to 4294967295".to_owned(),
        Expected::Array => " is not an array".to_owned(),
        Expected::FiniteNumber => " is not a finite number".to_owned(),
    }
}

fn received(v: &Json) -> (r: String)
    ensures
        r@ == received_text(v@),
{
    cut(quote_json(v))
}

impl WireError {
    pub open spec fn view(&self) -> WireErrorV {
        WireErrorV {
            field: self.field@,
            expected: self.expected,
            received: self.received@,
        }
    }

    /// The refusal text under `headline`, with what arrived and the given
    /// trailers.
    pub fn refusal(&self, headline: &str, trailers: Vec<(String, String)>) -> (r: String)
        ensures
            r@ == self@.text(headline@, trailer_views(trailers@)),
    {
        let mut all: Vec<(String, String)> = Vec::new();
        let ghost given = trailer_views(trailers@);
        all.push(("received".to_owned(), self.received.clone()));
        let mut trailers = trailers;
        all.append(&mut trailers);
        assert(trailer_views(all@) =~= seq![("received"@, self.received@)] + given);
        let what = self.field.clone().concat(expectation_text(self.expected).as_str());
        trailer_refusal(headline, what.as_str(), &all)
    }
}

impl WireErrorV {
    /// The refusal text under `headline`.
    pub open spec fn text(
        self,
        headline: Seq<char>,
        trailers: Seq<(Seq<char>, Seq<char>)>,
    ) -> Seq<char> {
        refusal_text(
            headline,
            self.field + expectation(self.expected),
            seq![("received"@, self.received)] + trailers,
        )
    }
}

/// The refusal of `v`, found at `field`.
pub open spec fn refused(v: JsonV, field: Seq<char>, expected: Expected) -> WireErrorV {
    WireErrorV { field, expected, received: received_text(v) }
}

/// The `u32` that a value holds.
pub open spec fn u32_of(v: JsonV) -> Option<u32> {
    match v {
        JsonV::Uint(n) => if n <= u32::MAX {
            Some(n as u32)
        } else {
            None
        },
        _ => None,
    }
}

/// A value that must be a `u32`.
pub fn u32_value(v: &Json, field: &str) -> (r: Result<u32, WireError>)
    ensures
        match r {
            Ok(n) => u32_of(v@) == Some(n),
            Err(e) => u32_of(v@) is None && e@ == refused(v@, field@, Expected::Uint32),
        },
{
    match v {
        Json::Uint(n) if *n <= u32::MAX as u64 => Ok(*n as u32),
        _ => Err(
            WireError {
                field: field.to_owned(),
                expected: Expected::Uint32,
                received: received(v),
            },
        ),
    }
}

/// An optional `u32` field: absent, or a `u32`.
pub open spec fn opt_u32_of(cmd: JsonV, key: Seq<char>) -> Result<Option<u32>, WireErrorV> {
    match cmd.field(key) {
        None => Ok(None),
        Some(v) => match u32_of(v) {
            Some(n) => Ok(Some(n)),
            None => Err(refused(v, key, Expected::Uint32)),
        },
    }
}

pub fn opt_u32(cmd: &Json, key: &str) -> (r: Result<Option<u32>, WireError>)
    ensures
        match r {
            Ok(n) => opt_u32_of(cmd@, key@) == Ok::<Option<u32>, WireErrorV>(n),
            Err(e) => opt_u32_of(cmd@, key@) == Err::<Option<u32>, WireErrorV>(e@),
        },
{
    match cmd.get(key) {
        None => Ok(None),
        Some(v) => match u32_value(v, key) {
            Ok(n) => Ok(Some(n)),
            Err(e) => Err(e),
        },
    }
}

/// An optional nullable `u32` field: absent, null, or a `u32`.
pub open spec fn opt_nullable_u32_of(
    cmd: JsonV,
    key: Seq<char>,
) -> Result<Option<Option<u32>>, WireErrorV> {
    match cmd.field(key) {
        None => Ok(None),
        Some(JsonV::Null) => Ok(Some(None)),
        Some(v) => match u32_of(v) {
            Some(n) => Ok(Some(Some(n))),
            None => Err(refused(v, key, Expected::Uint32)),
        },
    }
}

pub fn opt_nullable_u32(cmd: &Json, key: &str) -> (r: Result<Option<Option<u32>>, WireError>)
    ensures
        match r {
            Ok(n) => opt_nullable_u32_of(cmd@, key@) == Ok::<Option<Option<u32>>, WireErrorV>(n),
            Err(e) => opt_nullable_u32_of(cmd@, key@) == Err::<Option<Option<u32>>, WireErrorV>(
                e@,
            ),
        },
{
    match cmd.get(key) {
        None => Ok(None),
        Some(v) => {
            if v.is_null() {
                return Ok(Some(None));
            }
            match u32_value(v, key) {
                Ok(n) => Ok(Some(Some(n))),
                Err(e) => Err(e),
            }
        },
    }
}

/// The path of an array element: `key[i]`.
pub open spec fn element_path(key: Seq<char>, i: nat) -> Seq<char> {
    key + "["@ + dec(i) + "]"@
}

/// The path of an array element.
pub fn element_name(key: &str, i: usize) -> (r: String)
    ensures
        r@ == element_path(key@, i as nat),
{
    key.to_owned().concat("[").concat(decimal(i as u64).as_str()).concat("]")
}

/// The elements of an array of `u32`, up to the first that is none.
pub open spec fn u32_items(
    items: Seq<JsonV>,
    key: Seq<char>,
    from: nat,
) -> Result<Seq<u32>, WireErrorV>
    decreases items.len() - from,
{
    if from >= items.len() {
        Ok(Seq::empty())
    } else {
        match u32_of(items[from as int]) {
            None => Err(
                refused(items[from as int], element_path(key, from), Expected::Uint32),
            ),
            Some(n) => match u32_items(items, key, from + 1) {
                Ok(rest) => Ok(seq![n] + rest),
                Err(e) => Err(e),
            },
        }
    }
}

/// An optional field that holds an array of `u32`.
pub open spec fn opt_u32_array_of(
    cmd: JsonV,
    key: Seq<char>,
) -> Result<Option<Seq<u32>>, WireErrorV> {
    match cmd.field(key) {
        None => Ok(None),
        Some(v) => match v.arr_of() {
            None => Err(refused(v, key, Expected::Array)),
            Some(items) => match u32_items(items, key, 0) {
                Ok(ns) => Ok(Some(ns)),
                Err(e) => Err(e),
            },
        },
    }
}

proof fn u32_items_at(items: Seq<JsonV>, key: Seq<char>, from: nat, done: Seq<u32>)
    requires
        from <= items.len(),
        done.len() == from,
        forall|k: int| 0 <= k < from ==> u32_of(#[trigger] items[k]) == Some(done[k]),
    ensures
        u32_items(items, key, 0) == (match u32_items(items, key, from) {
            Ok(rest) => Ok::<Seq<u32>, WireErrorV>(done + rest),
            Err(e) => Err(e),
        }),
    decreases from,
{
    if from == 0 {
        assert(done =~= Seq::empty());
        assert(u32_items(items, key, 0) is Ok ==> done + u32_items(items, key, 0)->Ok_0
            =~= u32_items(items, key, 0)->Ok_0);
    } else {
        let prev = (from - 1) as nat;
        u32_items_at(items, key, prev, done.drop_last());
        assert(u32_of(items[prev as int]) == Some(done[prev as int]));
        if u32_items(items, key, from) is Ok {
            let rest = u32_items(items, key, from)->Ok_0;
            assert(done.drop_last() + (seq![done[prev as int]] + rest) =~= done + rest);
        }
    }
}

pub fn opt_u32_array(cmd: &Json, key: &str) -> (r: Result<Option<Vec<u32>>, WireError>)
    ensures
        match r {
            Ok(None) => opt_u32_array_of(cmd@, key@) == Ok::<Option<Seq<u32>>, WireErrorV>(None),
            Ok(Some(v)) => opt_u32_array_of(cmd@, key@) == Ok::<Option<Seq<u32>>, WireErrorV>(
                Some(v@),
            ),
            Err(e) => opt_u32_array_of(cmd@, key@) == Err::<Option<Seq<u32>>, WireErrorV>(e@),
        },
{
    let v = match cmd.get(key) {
        None => return Ok(None),
        Some(v) => v,
    };
    let items = match v.as_array() {
        None => return Err(
            WireError {
                field: key.to_owned(),
                expected: Expected::Array,
                received: received(v),
            },
        ),
        Some(items) => items,
    };
    let ghost all = views(items@);
    let mut out: Vec<u32> = Vec::new();
    let mut i: usize = 0;
    while i < items.len()
        invariant
            i <= items.len(),
            out.len() == i,
            all == views(items@),
            cmd@.field(key@) == Some(v@),
            v@.arr_of() == Some(all),
            forall|k: int| 0 <= k < i ==> u32_of(#[trigger] all[k]) == Some(out@[k]),
        decreases items.len() - i,
    {
        let name = element_name(key, i);
        assert(all[i as int] == items@[i as int]@);
        proof {
            u32_items_at(all, key@, i as nat, out@);
        }
        match u32_value(&items[i], name.as_str()) {
            Ok(n) => {
                out.push(n);
            },
            Err(e) => {
                return Err(e);
            },
        }
        i = i + 1;
    }
    proof {
        u32_items_at(all, key@, i as nat, out@);
        assert(u32_items(all, key@, i as nat) == Ok::<Seq<u32>, WireErrorV>(Seq::empty()));
        assert(out@ + Seq::<u32>::empty() =~= out@);
    }
    Ok(Some(out))
}

/// An optional array field: absent, or an array.
pub fn opt_array<'a>(cmd: &'a Json, key: &str) -> (r: Result<Option<&'a Vec<Json>>, WireError>)
    ensures
        match r {
            Ok(None) => cmd@.field(key@) is None,
            Ok(Some(items)) => cmd@.field(key@) == Some(JsonV::Arr(views(items@))),
            Err(e) => match cmd@.field(key@) {
                Some(v) => v.arr_of() is None && e@ == refused(v, key@, Expected::Array),
                None => false,
            },
        },
{
    match cmd.get(key) {
        None => Ok(None),
        Some(v) => match v.as_array() {
            Some(items) => Ok(Some(items)),
            None => Err(
                WireError {
                    field: key.to_owned(),
                    expected: Expected::Array,
                    received: received(v),
                },
            ),
        },
    }
}

/// The finite single that a number rounds to.
pub open spec fn finite_single_of(v: JsonV) -> Option<Single> {
    match v.double_of() {
        None => None,
        Some(x) => if x.narrowed().finite() {
            Some(x.narrowed())
        } else {
            None
        },
    }
}

/// A value that must be a number with a finite single.
pub fn finite_single(v: &Json, field: &str) -> (r: Result<Single, WireError>)
    ensures
        match r {
            Ok(x) => finite_single_of(v@) == Some(x),
            Err(e) => finite_single_of(v@) is None && e@ == refused(
                v@,
                field@,
                Expected::FiniteNumber,
            ),
        },
{
    match v.as_double() {
        Some(x) => {
            let y: Single = x.narrow();
            if y.is_finite() {
                return Ok(y);
            }
        },
        None => {},
    }
    Err(
        WireError {
            field: field.to_owned(),
            expected: Expected::FiniteNumber,
            received: received(v),
        },
    )
}

/// The double in an optional field; a value of another type counts as absent.
pub open spec fn double_field(cmd: JsonV, key: Seq<char>) -> Option<Double> {
    match cmd.field(key) {
        Some(v) => v.double_of(),
        None => None,
    }
}

pub fn get_double(cmd: &Json, key: &str) -> (r: Option<Double>)
    ensures
        r == double_field(cmd@, key@),
{
    match cmd.get(key) {
        Some(v) => v.as_double(),
        None => None,
    }
}

/// The unsigned integer in an optional field; a value of another type counts
/// as absent.
pub open spec fn uint_field(cmd: JsonV, key: Seq<char>) -> Option<u64> {
    match cmd.field(key) {
        Some(v) => v.uint_of(),
        None => None,
    }
}

pub fn get_uint(cmd: &Json, key: &str) -> (r: Option<u64>)
    ensures
        r == uint_field(cmd@, key@),
{
    match cmd.get(key) {
        Some(v) => v.as_uint(),
        None => None,
    }
}

/// The boolean in an optional field; a value of another type counts as absent.
pub open spec fn bool_field(cmd: JsonV, key: Seq<char>) -> Option<bool> {
    match cmd.field(key) {
        Some(v) => v.bool_of(),
        None => None,
    }
}

pub fn get_bool(cmd: &Json, key: &str) -> (r: Option<bool>)
    ensures
        r == bool_field(cmd@, key@),
{
    match cmd.get(key) {
        Some(v) => v.as_bool(),
        None => None,
    }
}

/// The string in an optional field; a value of another type counts as absent.
pub open spec fn str_field(cmd: JsonV, key: Seq<char>) -> Option<Seq<char>> {
    match cmd.field(key) {
        Some(v) => v.str_of(),
        None => None,
    }
}

pub fn get_str<'a>(cmd: &'a Json, key: &str) -> (r: Option<&'a str>)
    ensures
        match r {
            Some(s) => str_field(cmd@, key@) == Some(s@),
            None => str_field(cmd@, key@) is None,
        },
{
    match cmd.get(key) {
        Some(v) => v.as_str(),
        None => None,
    }
}

/// The reply of a refused command.
pub open spec fn refusal_reply(error: Seq<char>) -> JsonV {
    JsonV::obj().with("ok"@, JsonV::Bool(false)).with("error"@, JsonV::Str(error))
}

/// The reply of a refused command.
pub fn refuse(error: &str) -> (r: Json)
    ensures
        r@ == refusal_reply(error@),
{
    Json::obj().with("ok", Json::Bool(false)).with("error", Json::string(error))
}

/// A refusal says that the command failed, and why.
pub proof fn a_refusal_is_told_by_name(why: Seq<char>)
    ensures
        refusal_reply(why).field("ok"@) == Some(JsonV::Bool(false)),
        refusal_reply(why).field("error"@) == Some(JsonV::Str(why)),
{
    fields_read_back();
    reveal_strlit("ok");
    reveal_strlit("error");
    assert("ok"@.len() == 2);
    assert("error"@.len() == 5);
}

/// Each refusal of a field names the field, what it should have held and what
/// arrived.
pub proof fn a_refused_field_names_what_arrived(
    e: WireErrorV,
    v: JsonV,
    name: Seq<char>,
    wanted: Expected,
)
    requires
        e == refused(v, name, wanted),
    ensures
        e.field == name && e.expected == wanted && e.received == bounded(json_text(v)),
        forall|headline: Seq<char>, more: Seq<(Seq<char>, Seq<char>)>|
            #[trigger] e.text(headline, more) == refusal_text(
                headline,
                name + (if wanted == Expected::Uint32 {
                    " is not an integer from 0 to 4294967295"@
                } else if wanted == Expected::Array {
                    " is not an array"@
                } else {
                    " is not a finite number"@
                }),
                seq![("received"@, bounded(json_text(v)))] + more,
            ),
{
}

/// A field is read as a `u32` exactly where it holds an unsigned integer up to
/// the largest one, and is then that integer.
pub proof fn a_u32_is_never_narrowed(v: JsonV)
    ensures
        forall|n: u64| v == JsonV::Uint(n) && n <= 4294967295 ==> u32_of(v) == Some(n as u32),
        u32_of(v) matches Some(n) ==> v == JsonV::Uint(n as u64),
        u32_of(v) is None <==> !(v is Uint) || v->Uint_0 > 4294967295,
{
}

/// An absent field is no refusal; a null one is told apart only where null
/// stands for no channel.
pub proof fn absent_and_null_are_told_apart(cmd: JsonV, key: Seq<char>)
    ensures
        cmd.field(key) is None ==> opt_u32_of(cmd, key) == Ok::<Option<u32>, WireErrorV>(None)
            && opt_nullable_u32_of(cmd, key) == Ok::<Option<Option<u32>>, WireErrorV>(None)
            && opt_u32_array_of(cmd, key) == Ok::<Option<Seq<u32>>, WireErrorV>(None),
        cmd.field(key) == Some(JsonV::Null) ==> opt_u32_of(cmd, key) is Err && opt_u32_array_of(
            cmd,
            key,
        ) is Err && opt_nullable_u32_of(cmd, key) == Ok::<Option<Option<u32>>, WireErrorV>(
            Some(None),
        ),
        forall|n: u32|
            cmd.field(key) == Some(JsonV::Uint(n as u64)) ==> opt_u32_of(cmd, key) == Ok::<
                Option<u32>,
                WireErrorV,
            >(Some(n)) && #[trigger] opt_nullable_u32_of(cmd, key) == Ok::<
                Option<Option<u32>>,
                WireErrorV,
            >(Some(Some(n))),
        cmd.field(key) matches Some(v) ==> {
            &&& opt_u32_of(cmd, key) is Err <==> u32_of(v) is None
            &&& opt_u32_of(cmd, key) matches Err(e) ==> e == refused(v, key, Expected::Uint32)
            &&& opt_nullable_u32_of(cmd, key) is Err <==> u32_of(v) is None && v != JsonV::Null
            &&& opt_nullable_u32_of(cmd, key) matches Err(e) ==> e == refused(
                v,
                key,
                Expected::Uint32,
            )
            &&& !(v is Arr) ==> opt_u32_array_of(cmd, key) == Err::<Option<Seq<u32>>, WireErrorV>(
                refused(v, key, Expected::Array),
            )
        },
{
}

/// A list of channels is read whole and in order, or refused for its first
/// element that is no channel.
pub proof fn a_list_is_read_in_order(items: Seq<JsonV>, key: Seq<char>, from: nat)
    requires
        from <= items.len(),
    ensures
        u32_items(items, key, from) matches Ok(ns) ==> ns.len() == items.len() - from && (forall|
            i: int,
        |
            0 <= i < ns.len() ==> items[from + i] == JsonV::Uint(#[trigger] ns[i] as u64)),
        u32_items(items, key, from) matches Err(e) ==> exists|i: int|
            {
                &&& from <= i < items.len()
                &&& u32_of(#[trigger] items[i]) is None
                &&& e == refused(items[i], element_path(key, i as nat), Expected::Uint32)
                &&& forall|k: int| from <= k < i ==> u32_of(#[trigger] items[k]) is Some
            },
    decreases items.len() - from,
{
    if from < items.len() {
        a_list_is_read_in_order(items, key, from + 1);
        a_u32_is_never_narrowed(items[from as int]);
        if u32_of(items[from as int]) is Some {
            if let Ok(rest) = u32_items(items, key, from + 1) {
                let ns = u32_items(items, key, from)->Ok_0;
                assert forall|i: int| 0 <= i < ns.len() implies items[from + i] == JsonV::Uint(
                    #[trigger] ns[i] as u64,
                ) by {
                    if i > 0 {
                        assert(ns[i] == rest[i - 1]);
                        assert(items[from + 1 + (i - 1)] == JsonV::Uint(rest[i - 1] as u64));
                    }
                }
            } else {
                let e = u32_items(items, key, from + 1)->Err_0;
                let i = choose|i: int|
                    {
                        &&& from + 1 <= i < items.len()
                        &&& u32_of(#[trigger] items[i]) is None
                        &&& e == refused(items[i], element_path(key, i as nat), Expected::Uint32)
                        &&& forall|k: int| from + 1 <= k < i ==> u32_of(#[trigger] items[k]) is Some
                    };
                assert(u32_of(items[i]) is None);
            }
        } else {
            assert(u32_of(items[from as int]) is None);
        }
    }
}

/// The path of an element names the list and the index, in brackets.
pub proof fn element_paths_name_the_index(key: Seq<char>, i: nat)
    ensures
        element_path(key, i).take(key.len() as int) == key,
        element_path(key, i)[key.len() as int] == '[',
        element_path(key, i).subrange(
            key.len() as int + 1,
            element_path(key, i).len() - 1,
        ) == dec(i),
        element_path(key, i).last() == ']',
{
    reveal_strlit("[");
    reveal_strlit("]");
}

/// Optional fields read as absent where they hold a value of another type.
pub proof fn other_types_read_as_absent(cmd: JsonV, key: Seq<char>)
    ensures
        uint_field(cmd, key) matches Some(n) ==> cmd.field(key) == Some(JsonV::Uint(n)),
        forall|n: u64| cmd.field(key) == Some(JsonV::Uint(n)) ==> #[trigger] uint_field(cmd, key)
            == Some(n),
        bool_field(cmd, key) matches Some(b) ==> cmd.field(key) == Some(JsonV::Bool(b)),
        cmd.field(key) == Some(JsonV::Bool(true)) ==> bool_field(cmd, key) == Some(true),
        cmd.field(key) == Some(JsonV::Bool(false)) ==> bool_field(cmd, key) == Some(false),
        str_field(cmd, key) matches Some(s) ==> cmd.field(key) == Some(JsonV::Str(s)),
        cmd.field(key) is Some && cmd.field(key)->0 is Str ==> str_field(cmd, key) is Some,
        cmd.field(key) is None ==> double_field(cmd, key) is None,
        cmd.field(key) matches Some(v) ==> {
            &&& v is Null || v is Bool || v is Str || v is Arr || v is Obj ==> double_field(cmd, key)
                is None
            &&& v is Decimal || v is Float || v is Uint || v is Int ==> double_field(cmd, key)
                is Some
            &&& v matches JsonV::Float(x) ==> double_field(cmd, key) == Some(x)
            &&& v matches JsonV::Decimal { value, .. } ==> double_field(cmd, key) == Some(value)
        },
{
}

/// A number is read as a single exactly where the single nearest to it is
/// finite.
pub proof fn a_single_is_finite(v: JsonV)
    ensures
        finite_single_of(v) matches Some(x) ==> x.finite() && v.double_of() is Some && x
            == v.double_of()->0.narrowed(),
        finite_single_of(v) is None <==> v.double_of() is None
            || !v.double_of()->0.narrowed().finite(),
{
}

/// In the lines of a refusal every value starts in the same column, two
/// spaces after the longest key.
pub proof fn values_stand_in_one_column(t: Seq<(Seq<char>, Seq<char>)>, i: int)
    requires
        0 <= i < t.len(),
    ensures
        t[i].0.len() + blanks((key_width(t) - t[i].0.len() + 2) as nat).len() == key_width(t) + 2,
        exists|k: int| 0 <= k < t.len() && #[trigger] t[k].0.len() == key_width(t),
    decreases t.len(),
{
    key_fits(t, i);
    if t.len() > 1 {
        let rest = t.drop_last();
        values_stand_in_one_column(rest, 0);
        if t.last().0.len() <= key_width(rest) {
            let k = choose|k: int| 0 <= k < rest.len() && #[trigger] rest[k].0.len() == key_width(
                rest,
            );
            assert(t[k].0.len() == key_width(t));
        } else {
            assert(t[t.len() - 1].0.len() == key_width(t));
        }
    } else {
        assert(key_width(t.drop_last()) == 0);
        assert(t[0].0.len() == key_width(t));
    }
}

/// A refusal without trailers is one line: the headline, a dash, the reason.
/// Each trailer adds a line of its own below.
pub proof fn a_refusal_starts_with_its_headline(
    headline: Seq<char>,
    what: Seq<char>,
    t: Seq<(Seq<char>, Seq<char>)>,
)
    ensures
        refusal_text(headline, what, Seq::empty()) == headline + " \u{2014} "@ + what,
        t.len() > 0 ==> trailer_lines(t, key_width(t)) == trailer_lines(t.drop_last(), key_width(t))
            + "\n         "@ + t.last().0 + blanks(
            (key_width(t) - t.last().0.len() + 2) as nat,
        ) + t.last().1,
        refusal_text(headline, what, t).len() == headline.len() + 3 + what.len() + trailer_lines(
            t,
            key_width(t),
        ).len(),
{
    reveal_strlit(" \u{2014} ");
}

} // verus!
