//! JSON values: the requests that commands read and the replies and frames
//! that they build.
//!
//! A number keeps its form: unsigned and negative integers, the numbers with a
//! fraction that requests carry, with the text they came in, and the doubles
//! and singles of replies and frames (a single is written as the double of the
//! same value).
use serde_json::Number;
use vstd::prelude::*;

use crate::double::{whole_bits, whole_numbers_fit, Double, Single, SIGN};
use crate::text::{str_eq, texts};

verus! {

/// A JSON value.
pub enum Json {
    Null,
    Bool(bool),
    Uint(u64),
    Int(i64),
    /// A number with a fraction, as it was received.
    Decimal { value: Double, text: String },
    Float(Double),
    Float32(Single),
    Str(String),
    Arr(Vec<Json>),
    Obj(Vec<(String, Json)>),
}

/// What a JSON value holds.
#[verifier::ext_equal]
pub enum JsonV {
    Null,
    Bool(bool),
    Uint(u64),
    Int(i64),
    Decimal { value: Double, text: Seq<char> },
    Float(Double),
    Float32(Single),
    Str(Seq<char>),
    Arr(Seq<JsonV>),
    Obj(Seq<(Seq<char>, JsonV)>),
}

/// The double nearest to an integer, ties to even.
pub open spec fn integer_double(n: int) -> Double {
    if n < 0 {
        Double { bits: (SIGN + whole_bits((-n) as nat)) as u64 }
    } else {
        Double { bits: whole_bits(n as nat) as u64 }
    }
}

/// `serde_json::Number::as_f64` on an unsigned integer, as a bit pattern: the
/// double nearest to the integer, ties to even, and never nothing.
#[verifier::external_body]
fn uint_as_double(n: u64) -> (r: Option<u64>)
    ensures
        r is Some,
        r->0 == whole_bits(n as nat),
{
    Number::from(n).as_f64().map(|x| x.to_bits())
}

/// The value of the first field named `key`.
pub open spec fn lookup(fields: Seq<(Seq<char>, JsonV)>, key: Seq<char>) -> Option<JsonV>
    decreases fields.len(),
{
    if fields.len() == 0 {
        None
    } else if fields[0].0 == key {
        Some(fields[0].1)
    } else {
        lookup(fields.drop_first(), key)
    }
}

/// The fields with `key` set to `v`: the first field of that name takes the
/// value, or a new one is added at the end.
pub open spec fn put(
    fields: Seq<(Seq<char>, JsonV)>,
    key: Seq<char>,
    v: JsonV,
) -> Seq<(Seq<char>, JsonV)>
    decreases fields.len(),
{
    if fields.len() == 0 {
        seq![(key, v)]
    } else if fields[0].0 == key {
        seq![(key, v)] + fields.drop_first()
    } else {
        seq![fields[0]] + put(fields.drop_first(), key, v)
    }
}

impl JsonV {
    /// The empty object.
    pub open spec fn obj() -> JsonV {
        JsonV::Obj(Seq::empty())
    }

    /// The object with one field set; other values stay as they are.
    pub open spec fn with(self, key: Seq<char>, v: JsonV) -> JsonV {
        match self {
            JsonV::Obj(fields) => JsonV::Obj(put(fields, key, v)),
            _ => self,
        }
    }

    /// The field of an object; nothing else has fields.
    pub open spec fn field(self, key: Seq<char>) -> Option<JsonV> {
        match self {
            JsonV::Obj(fields) => lookup(fields, key),
            _ => None,
        }
    }

    pub open spec fn str_of(self) -> Option<Seq<char>> {
        match self {
            JsonV::Str(s) => Some(s),
            _ => None,
        }
    }

    pub open spec fn bool_of(self) -> Option<bool> {
        match self {
            JsonV::Bool(b) => Some(b),
            _ => None,
        }
    }

    pub open spec fn uint_of(self) -> Option<u64> {
        match self {
            JsonV::Uint(n) => Some(n),
            _ => None,
        }
    }

    pub open spec fn double_of(self) -> Option<Double> {
        match self {
            JsonV::Decimal { value, .. } => Some(value),
            JsonV::Float(x) => Some(x),
            JsonV::Uint(n) => Some(integer_double(n as int)),
            JsonV::Int(n) => Some(integer_double(n as int)),
            _ => None,
        }
    }

    pub open spec fn arr_of(self) -> Option<Seq<JsonV>> {
        match self {
            JsonV::Arr(items) => Some(items),
            _ => None,
        }
    }
}

/// A double as a JSON number; JSON has none for infinities and NaN.
pub open spec fn finite_or_null(x: Double) -> JsonV {
    if x.finite() {
        JsonV::Float(x)
    } else {
        JsonV::Null
    }
}

/// A single as a JSON number; JSON has none for infinities and NaN.
pub open spec fn finite_single_or_null(x: Single) -> JsonV {
    if x.finite() {
        JsonV::Float32(x)
    } else {
        JsonV::Null
    }
}

/// A signed integer: the wire has one form for those below zero and one for
/// the others.
pub open spec fn integer_view(n: i64) -> JsonV {
    if n >= 0 {
        JsonV::Uint(n as u64)
    } else {
        JsonV::Int(n)
    }
}

/// The numbers of a list of doubles.
pub open spec fn double_views(xs: Seq<Double>) -> Seq<JsonV> {
    xs.map_values(|x: Double| finite_or_null(x))
}

/// The numbers of a list of singles.
pub open spec fn single_views(xs: Seq<Single>) -> Seq<JsonV> {
    xs.map_values(|x: Single| finite_single_or_null(x))
}

/// The numbers of a list of `u64`.
pub open spec fn uint_views(xs: Seq<u64>) -> Seq<JsonV> {
    xs.map_values(|n: u64| JsonV::Uint(n))
}

/// The numbers of a list of `u32`.
pub open spec fn u32_views(xs: Seq<u32>) -> Seq<JsonV> {
    xs.map_values(|n: u32| JsonV::Uint(n as u64))
}

/// A string, or null.
pub open spec fn str_or_null(s: Option<Seq<char>>) -> JsonV {
    match s {
        Some(s) => JsonV::Str(s),
        None => JsonV::Null,
    }
}

/// A double, or null.
pub open spec fn double_or_null(x: Option<Double>) -> JsonV {
    match x {
        Some(x) => finite_or_null(x),
        None => JsonV::Null,
    }
}

/// What the values of a list hold.
pub open spec fn views(items: Seq<Json>) -> Seq<JsonV> {
    items.map_values(|j: Json| j@)
}

impl Json {
    pub open spec fn view(&self) -> JsonV
        decreases self,
    {
        match self {
            Json::Null => JsonV::Null,
            Json::Bool(b) => JsonV::Bool(*b),
            Json::Uint(n) => JsonV::Uint(*n),
            Json::Int(n) => JsonV::Int(*n),
            Json::Decimal { value, text } => JsonV::Decimal { value: *value, text: text@ },
            Json::Float(x) => JsonV::Float(*x),
            Json::Float32(x) => JsonV::Float32(*x),
            Json::Str(s) => JsonV::Str(s@),
            Json::Arr(items) => JsonV::Arr(
                Seq::new(
                    items@.len(),
                    |i: int|
                        if 0 <= i < items@.len() {
                            items@[i].view()
                        } else {
                            JsonV::Null
                        },
                ),
            ),
            Json::Obj(fields) => JsonV::Obj(
                Seq::new(
                    fields@.len(),
                    |i: int|
                        if 0 <= i < fields@.len() {
                            (fields@[i].0@, fields@[i].1.view())
                        } else {
                            (Seq::empty(), JsonV::Null)
                        },
                ),
            ),
        }
    }

    pub fn obj() -> (r: Json)
        ensures
            r@ == JsonV::obj(),
    {
        let fields: Vec<(String, Json)> = Vec::new();
        proof {
            view_of_obj(fields);
            assert(field_views(fields@) =~= Seq::empty());
        }
        Json::Obj(fields)
    }

    pub fn string(s: &str) -> (r: Json)
        ensures
            r@ == JsonV::Str(s@),
    {
        Json::Str(s.to_owned())
    }

    /// A double as a JSON number, or null when it is not finite.
    pub fn float(x: Double) -> (r: Json)
        ensures
            r@ == finite_or_null(x),
    {
        if x.is_finite() {
            Json::Float(x)
        } else {
            Json::Null
        }
    }

    /// A single as a JSON number, or null when it is not finite.
    pub fn single(x: Single) -> (r: Json)
        ensures
            r@ == finite_single_or_null(x),
    {
        if x.is_finite() {
            Json::Float32(x)
        } else {
            Json::Null
        }
    }

    pub fn integer(n: i64) -> (r: Json)
        ensures
            r@ == integer_view(n),
    {
        if n >= 0 {
            Json::Uint(n as u64)
        } else {
            Json::Int(n)
        }
    }

    /// A list of doubles.
    pub fn floats(xs: &Vec<Double>) -> (r: Json)
        ensures
            r@ == JsonV::Arr(double_views(xs@)),
    {
        let mut out: Vec<Json> = Vec::new();
        let mut i: usize = 0;
        while i < xs.len()
            invariant
                i <= xs.len(),
                out.len() == i,
                forall|k: int| 0 <= k < i ==> (#[trigger] out@[k])@ == finite_or_null(xs@[k]),
            decreases xs.len() - i,
        {
            out.push(Json::float(xs[i]));
            i = i + 1;
        }
        assert(views(out@) =~= double_views(xs@));
        Json::array(out)
    }

    /// A list of singles.
    pub fn singles(xs: &Vec<Single>) -> (r: Json)
        ensures
            r@ == JsonV::Arr(single_views(xs@)),
    {
        let mut out: Vec<Json> = Vec::new();
        let mut i: usize = 0;
        while i < xs.len()
            invariant
                i <= xs.len(),
                out.len() == i,
                forall|k: int|
                    0 <= k < i ==> (#[trigger] out@[k])@ == finite_single_or_null(xs@[k]),
            decreases xs.len() - i,
        {
            out.push(Json::single(xs[i]));
            i = i + 1;
        }
        assert(views(out@) =~= single_views(xs@));
        Json::array(out)
    }

    /// A list of `u64`.
    pub fn longs(xs: &Vec<u64>) -> (r: Json)
        ensures
            r@ == JsonV::Arr(uint_views(xs@)),
    {
        let mut out: Vec<Json> = Vec::new();
        let mut i: usize = 0;
        while i < xs.len()
            invariant
                i <= xs.len(),
                out.len() == i,
                forall|k: int| 0 <= k < i ==> (#[trigger] out@[k])@ == JsonV::Uint(xs@[k]),
            decreases xs.len() - i,
        {
            out.push(Json::Uint(xs[i]));
            i = i + 1;
        }
        assert(views(out@) =~= uint_views(xs@));
        Json::array(out)
    }

    /// A list of `u32`.
    pub fn uints(xs: &Vec<u32>) -> (r: Json)
        ensures
            r@ == JsonV::Arr(u32_views(xs@)),
    {
        let mut out: Vec<Json> = Vec::new();
        let mut i: usize = 0;
        while i < xs.len()
            invariant
                i <= xs.len(),
                out.len() == i,
                forall|k: int| 0 <= k < i ==> (#[trigger] out@[k])@ == JsonV::Uint(xs@[k] as u64),
            decreases xs.len() - i,
        {
            out.push(Json::Uint(xs[i] as u64));
            i = i + 1;
        }
        assert(views(out@) =~= u32_views(xs@));
        Json::array(out)
    }

    pub fn opt_float(x: Option<Double>) -> (r: Json)
        ensures
            r@ == double_or_null(x),
    {
        match x {
            Some(x) => Json::float(x),
            None => Json::Null,
        }
    }

    pub fn opt_string(s: &Option<String>) -> (r: Json)
        ensures
            r@ == str_or_null(opt_text(*s)),
    {
        match s {
            Some(s) => Json::Str(s.clone()),
            None => Json::Null,
        }
    }

    pub fn array(items: Vec<Json>) -> (r: Json)
        ensures
            r@ == JsonV::Arr(views(items@)),
    {
        proof {
            view_of_arr(items);
        }
        Json::Arr(items)
    }

    /// A list of strings.
    pub fn strings(items: &Vec<String>) -> (r: Json)
        ensures
            r@ == JsonV::Arr(str_views(texts(items@))),
    {
        let mut out: Vec<Json> = Vec::new();
        let mut i: usize = 0;
        while i < items.len()
            invariant
                i <= items.len(),
                out.len() == i,
                forall|k: int| 0 <= k < i ==> (#[trigger] out@[k])@ == JsonV::Str(items@[k]@),
            decreases items.len() - i,
        {
            out.push(Json::Str(items[i].clone()));
            i = i + 1;
        }
        assert(views(out@) =~= str_views(texts(items@)));
        Json::array(out)
    }

    /// The object with one field set; other values stay as they are.
    pub fn with(self, key: &str, value: Json) -> (r: Json)
        ensures
            r@ == self@.with(key@, value@),
    {
        match self {
            Json::Obj(fields) => {
                let ghost before = field_views(fields@);
                proof {
                    view_of_obj(fields);
                }
                let mut fields = fields;
                let mut i: usize = 0;
                let n: usize = fields.len();
                while i < n && !str_eq(fields[i].0.as_str(), key)
                    invariant
                        i <= n,
                        n == fields.len(),
                        before == field_views(fields@),
                        forall|k: int| 0 <= k < i ==> (#[trigger] before[k]).0 != key@,
                    decreases n - i,
                {
                    assert(before[i as int].0 == fields@[i as int].0@);
                    i = i + 1;
                }
                proof {
                    put_at_first_match(before, key@, value@, i as int);
                }
                let ghost v = value@;
                if i < n {
                    fields.set(i, (key.to_owned(), value));
                    assert(field_views(fields@) =~= before.update(i as int, (key@, v)));
                } else {
                    fields.push((key.to_owned(), value));
                    assert(field_views(fields@) =~= before.push((key@, v)));
                }
                proof {
                    view_of_obj(fields);
                }
                Json::Obj(fields)
            },
            other => other,
        }
    }

    /// The field of an object; nothing else has fields.
    pub fn get(&self, key: &str) -> (r: Option<&Json>)
        ensures
            match r {
                Some(j) => self@.field(key@) == Some(j@),
                None => self@.field(key@) is None,
            },
    {
        match self {
            Json::Obj(fields) => {
                let ghost all = field_views(fields@);
                proof {
                    view_of_obj(*fields);
                }
                let mut i: usize = 0;
                while i < fields.len()
                    invariant
                        i <= fields.len(),
                        all == field_views(fields@),
                        self@ == JsonV::Obj(all),
                        forall|k: int| 0 <= k < i ==> (#[trigger] all[k]).0 != key@,
                    decreases fields.len() - i,
                {
                    assert(all[i as int] == (fields@[i as int].0@, fields@[i as int].1@));
                    if str_eq(fields[i].0.as_str(), key) {
                        proof {
                            lookup_at_first_match(all, key@, i as int);
                        }
                        return Some(&fields[i].1);
                    }
                    i = i + 1;
                }
                proof {
                    lookup_at_first_match(all, key@, i as int);
                }
                None
            },
            _ => None,
        }
    }

    pub fn as_str(&self) -> (r: Option<&str>)
        ensures
            match r {
                Some(s) => self@.str_of() == Some(s@),
                None => self@.str_of() is None,
            },
    {
        match self {
            Json::Str(s) => Some(s.as_str()),
            _ => None,
        }
    }

    pub fn as_bool(&self) -> (r: Option<bool>)
        ensures
            r == self@.bool_of(),
    {
        match self {
            Json::Bool(b) => Some(*b),
            _ => None,
        }
    }

    pub fn as_uint(&self) -> (r: Option<u64>)
        ensures
            r == self@.uint_of(),
    {
        match self {
            Json::Uint(n) => Some(*n),
            _ => None,
        }
    }

    /// The number as a double, whatever its form on the wire.
    pub fn as_double(&self) -> (r: Option<Double>)
        ensures
            r == self@.double_of(),
    {
        match self {
            Json::Decimal { value, .. } => Some(*value),
            Json::Float(x) => Some(*x),
            Json::Uint(n) => match uint_as_double(*n) {
                Some(bits) => Some(Double { bits }),
                None => None,
            },
            Json::Int(n) => if *n < 0 {
                let magnitude: u64 = (-(*n + 1)) as u64 + 1;
                proof {
                    whole_numbers_fit(magnitude as nat);
                }
                match uint_as_double(magnitude) {
                    Some(bits) => Some(Double { bits: SIGN + bits }),
                    None => None,
                }
            } else {
                match uint_as_double(*n as u64) {
                    Some(bits) => Some(Double { bits }),
                    None => None,
                }
            },
            _ => None,
        }
    }

    pub fn as_array(&self) -> (r: Option<&Vec<Json>>)
        ensures
            match r {
                Some(items) => self@.arr_of() == Some(views(items@)),
                None => self@.arr_of() is None,
            },
    {
        match self {
            Json::Arr(items) => {
                proof {
                    view_of_arr(*items);
                }
                Some(items)
            },
            _ => None,
        }
    }

    /// A copy that holds the same.
    pub fn copy(&self) -> (r: Json)
        ensures
            r@ == self@,
        decreases self,
    {
        match self {
            Json::Null => Json::Null,
            Json::Bool(b) => Json::Bool(*b),
            Json::Uint(n) => Json::Uint(*n),
            Json::Int(n) => Json::Int(*n),
            Json::Decimal { value, text } => Json::Decimal { value: *value, text: text.clone() },
            Json::Float(x) => Json::Float(*x),
            Json::Float32(x) => Json::Float32(*x),
            Json::Str(s) => Json::Str(s.clone()),
            Json::Arr(items) => {
                let mut out: Vec<Json> = Vec::new();
                let mut i: usize = 0;
                while i < items.len()
                    invariant
                        i <= items.len(),
                        out.len() == i,
                        *self == Json::Arr(*items),
                        forall|k: int| 0 <= k < i ==> (#[trigger] out@[k])@ == items@[k]@,
                    decreases items.len() - i,
                {
                    proof {
                        assert(decreases_to!(*self => self->Arr_0));
                        assert(decreases_to!(items => items@));
                        assert(decreases_to!(items@ => items@[i as int]));
                    }
                    out.push(items[i].copy());
                    i = i + 1;
                }
                proof {
                    view_of_arr(*items);
                    assert(views(out@) =~= views(items@));
                }
                Json::array(out)
            },
            Json::Obj(fields) => {
                let mut out: Vec<(String, Json)> = Vec::new();
                let mut i: usize = 0;
                while i < fields.len()
                    invariant
                        i <= fields.len(),
                        out.len() == i,
                        *self == Json::Obj(*fields),
                        forall|k: int|
                            0 <= k < i ==> (#[trigger] out@[k]).0@ == fields@[k].0@ && out@[k].1@
                                == fields@[k].1@,
                    decreases fields.len() - i,
                {
                    proof {
                        assert(decreases_to!(*self => self->Obj_0));
                        assert(decreases_to!(fields => fields@));
                        assert(decreases_to!(fields@ => fields@[i as int]));
                        assert(decreases_to!(fields@[i as int] => fields@[i as int].1));
                    }
                    out.push((fields[i].0.clone(), fields[i].1.copy()));
                    i = i + 1;
                }
                proof {
                    view_of_obj(*fields);
                    view_of_obj(out);
                    assert(field_views(out@) =~= field_views(fields@));
                }
                Json::Obj(out)
            },
        }
    }

    pub fn is_null(&self) -> (r: bool)
        ensures
            r == (self@ is Null),
    {
        match self {
            Json::Null => true,
            _ => false,
        }
    }
}

/// What the fields of an object hold.
pub open spec fn field_views(fields: Seq<(String, Json)>) -> Seq<(Seq<char>, JsonV)> {
    fields.map_values(|f: (String, Json)| (f.0@, f.1@))
}

/// A list of JSON strings.
pub open spec fn str_views(items: Seq<Seq<char>>) -> Seq<JsonV> {
    items.map_values(|s: Seq<char>| JsonV::Str(s))
}

/// The text of an optional string.
pub open spec fn opt_text(s: Option<String>) -> Option<Seq<char>> {
    match s {
        Some(s) => Some(s@),
        None => None,
    }
}

/// An object holds what its fields hold.
pub proof fn view_of_obj(fields: Vec<(String, Json)>)
    ensures
        Json::Obj(fields)@ == JsonV::Obj(field_views(fields@)),
{
    let v = Json::Obj(fields)@;
    assert(v->Obj_0 =~= field_views(fields@));
}

/// A list holds what its items hold.
pub proof fn view_of_arr(items: Vec<Json>)
    ensures
        Json::Arr(items)@ == JsonV::Arr(views(items@)),
{
    let v = Json::Arr(items)@;
    assert(v->Arr_0 =~= views(items@));
}

proof fn lookup_at_first_match(fields: Seq<(Seq<char>, JsonV)>, key: Seq<char>, i: int)
    requires
        0 <= i <= fields.len(),
        forall|k: int| 0 <= k < i ==> (#[trigger] fields[k]).0 != key,
        i < fields.len() ==> fields[i].0 == key,
    ensures
        lookup(fields, key) == (if i < fields.len() {
            Some(fields[i].1)
        } else {
            None
        }),
    decreases i,
{
    if i > 0 {
        let rest = fields.drop_first();
        assert forall|k: int| 0 <= k < i - 1 implies (#[trigger] rest[k]).0 != key by {
            assert(rest[k] == fields[k + 1]);
        }
        lookup_at_first_match(rest, key, i - 1);
    }
}

proof fn put_at_first_match(fields: Seq<(Seq<char>, JsonV)>, key: Seq<char>, v: JsonV, i: int)
    requires
        0 <= i <= fields.len(),
        forall|k: int| 0 <= k < i ==> (#[trigger] fields[k]).0 != key,
        i < fields.len() ==> fields[i].0 == key,
    ensures
        put(fields, key, v) == (if i < fields.len() {
            fields.update(i, (key, v))
        } else {
            fields.push((key, v))
        }),
    decreases i,
{
    if i == 0 {
        if fields.len() == 0 {
            assert(put(fields, key, v) =~= fields.push((key, v)));
        } else {
            assert(put(fields, key, v) =~= fields.update(0, (key, v)));
        }
    } else {
        let rest = fields.drop_first();
        assert forall|k: int| 0 <= k < i - 1 implies (#[trigger] rest[k]).0 != key by {
            assert(rest[k] == fields[k + 1]);
        }
        put_at_first_match(rest, key, v, i - 1);
        if i < fields.len() {
            assert(put(fields, key, v) =~= fields.update(i, (key, v)));
        } else {
            assert(put(fields, key, v) =~= fields.push((key, v)));
        }
    }
}

/// A field that was set reads back as it was set, and setting it disturbs no
/// other field.
pub proof fn a_set_field_reads_back(
    fields: Seq<(Seq<char>, JsonV)>,
    key: Seq<char>,
    v: JsonV,
    other: Seq<char>,
)
    ensures
        lookup(put(fields, key, v), key) == Some(v),
        other != key ==> lookup(put(fields, key, v), other) == lookup(fields, other),
    decreases fields.len(),
{
    if fields.len() == 0 {
        assert(put(fields, key, v).drop_first() =~= fields);
    } else {
        let rest = fields.drop_first();
        a_set_field_reads_back(rest, key, v, other);
        if fields[0].0 == key {
            assert(put(fields, key, v).drop_first() =~= rest);
        } else {
            assert(put(fields, key, v).drop_first() =~= put(rest, key, v));
        }
    }
}

/// The same of objects: a field that was set reads back, and the others stay.
pub proof fn fields_read_back()
    ensures
        forall|f: JsonV, key: Seq<char>, v: JsonV|
            f is Obj ==> (#[trigger] f.with(key, v)) is Obj && f.with(key, v).field(key) == Some(v),
        forall|f: JsonV, key: Seq<char>, v: JsonV, other: Seq<char>|
            f is Obj && other != key ==> #[trigger] f.with(key, v).field(other) == f.field(other),
{
    assert forall|f: JsonV, key: Seq<char>, v: JsonV| f is Obj implies (#[trigger] f.with(
        key,
        v,
    )) is Obj && f.with(key, v).field(key) == Some(v) by {
        a_set_field_reads_back(f->Obj_0, key, v, key);
    }
    assert forall|f: JsonV, key: Seq<char>, v: JsonV, other: Seq<char>|
        f is Obj && other != key implies #[trigger] f.with(key, v).field(other) == f.field(
        other,
    ) by {
        a_set_field_reads_back(f->Obj_0, key, v, other);
    }
}

/// A finite number is told as it is; infinities and NaN are told as null,
/// and so is a number or text that is not there.
pub proof fn numbers_are_told_where_finite(x: Double, y: Single, s: Seq<char>)
    ensures
        finite_or_null(x) == JsonV::Float(x) <==> x.finite(),
        finite_or_null(x) == JsonV::Null <==> !x.finite(),
        finite_single_or_null(y) == JsonV::Float32(y) <==> y.finite(),
        finite_single_or_null(y) == JsonV::Null <==> !y.finite(),
        double_or_null(None) == JsonV::Null,
        x.finite() ==> double_or_null(Some(x)) == JsonV::Float(x),
        !x.finite() ==> double_or_null(Some(x)) == JsonV::Null,
        str_or_null(None) == JsonV::Null,
        str_or_null(Some(s)) == JsonV::Str(s),
{
}

/// A whole number is told by its value: below zero as a signed integer, else
/// as an unsigned one.
pub proof fn whole_numbers_are_told_by_value(n: i64)
    ensures
        n < 0 ==> integer_view(n) == JsonV::Int(n),
        n >= 0 ==> integer_view(n) is Uint && integer_view(n)->Uint_0 == n,
{
}

/// A list is told item by item, in order.
pub proof fn lists_are_told_in_order(
    xs: Seq<Double>,
    ys: Seq<Single>,
    ns: Seq<u64>,
    ms: Seq<u32>,
    ss: Seq<Seq<char>>,
    i: int,
)
    ensures
        double_views(xs).len() == xs.len(),
        single_views(ys).len() == ys.len(),
        uint_views(ns).len() == ns.len(),
        u32_views(ms).len() == ms.len(),
        str_views(ss).len() == ss.len(),
        0 <= i < xs.len() && xs[i].finite() ==> double_views(xs)[i] == JsonV::Float(xs[i]),
        0 <= i < xs.len() && !xs[i].finite() ==> double_views(xs)[i] == JsonV::Null,
        0 <= i < ys.len() && ys[i].finite() ==> single_views(ys)[i] == JsonV::Float32(ys[i]),
        0 <= i < ys.len() && !ys[i].finite() ==> single_views(ys)[i] == JsonV::Null,
        0 <= i < ns.len() ==> uint_views(ns)[i] == JsonV::Uint(ns[i]),
        0 <= i < ms.len() ==> u32_views(ms)[i] == JsonV::Uint(ms[i] as u64),
        0 <= i < ss.len() ==> str_views(ss)[i] == JsonV::Str(ss[i]),
{
}

/// A value is read only as what it is: no text is a number, no number a text.
pub proof fn values_are_read_as_what_they_are(v: JsonV)
    ensures
        v.str_of() is Some <==> v is Str,
        v.bool_of() is Some <==> v is Bool,
        v.uint_of() is Some <==> v is Uint,
        v.arr_of() is Some <==> v is Arr,
        v.double_of() is Some <==> v is Decimal || v is Float || v is Uint || v is Int,
        v matches JsonV::Str(s) ==> v.str_of() == Some(s),
        v matches JsonV::Bool(b) ==> v.bool_of() == Some(b),
        v matches JsonV::Uint(n) ==> v.uint_of() == Some(n),
        v matches JsonV::Arr(items) ==> v.arr_of() == Some(items),
{
}

/// An integer and its opposite are read as numbers that differ in their sign
/// alone.
pub proof fn opposite_integers_read_alike(n: int)
    requires
        0 < n <= u64::MAX,
    ensures
        integer_double(n).rank() == whole_bits(n as nat),
        integer_double(-n).rank() == -whole_bits(n as nat),
        integer_double(0).rank() == 0,
{
    whole_numbers_fit(n as nat);
}

/// The first field of a name is the one that is read.
pub proof fn the_first_field_is_read(
    fields: Seq<(Seq<char>, JsonV)>,
    key: Seq<char>,
    i: int,
)
    ensures
        0 <= i < fields.len() && fields[i].0 == key && (forall|k: int|
            0 <= k < i ==> (#[trigger] fields[k]).0 != key) ==> lookup(fields, key) == Some(
            fields[i].1,
        ),
        (forall|k: int| 0 <= k < fields.len() ==> (#[trigger] fields[k]).0 != key) ==> lookup(
            fields,
            key,
        ) is None,
    decreases fields.len(),
{
    if fields.len() > 0 {
        let rest = fields.drop_first();
        the_first_field_is_read(rest, key, i - 1);
        if fields[0].0 != key {
            if 0 <= i < fields.len() && fields[i].0 == key && (forall|k: int|
                0 <= k < i ==> (#[trigger] fields[k]).0 != key) {
                assert(i > 0);
                assert(rest[i - 1] == fields[i]);
                assert forall|k: int| 0 <= k < i - 1 implies (#[trigger] rest[k]).0 != key by {
                    assert(fields[k + 1].0 != key);
                }
            }
            if forall|k: int| 0 <= k < fields.len() ==> (#[trigger] fields[k]).0 != key {
                assert forall|k: int| 0 <= k < rest.len() implies (#[trigger] rest[k]).0
                    != key by {
                    assert(fields[k + 1].0 != key);
                }
            }
        }
    }
}

} // verus!
