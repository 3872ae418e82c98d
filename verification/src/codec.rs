//! The partial-object codec itself: the typed field set, permissive
//! decoding from a JSON value or JSON text, and encoding to canonical
//! JSON text and to a query string.

use vstd::prelude::*;
use crate::json::{jv_entry_views, jv_view, jv_views, lemma_jv_entry_views, json_text, parse_json, parsed_json, JsonValue, JsonView};
use crate::text::{bool_text, dec_text, esc_min, int_text, join_texts, lemma_join_snoc, parse_i64_spec, parse_u64_spec, str_is};
use crate::text::{join_parts, parse_i64, parse_u64, push_char, push_dec, push_esc_min, push_int};
use crate::time::{canonicalize_rfc3339, epoch_rfc3339, rfc3339_canon};

verus! {

/// The closed tag set carried by the object's `enum` field. Decoding
/// never fails: anything but a known tag falls back to the default
/// (first) tag.
#[derive(Debug, Clone, Copy, PartialEq, Eq, Structural)]
pub enum PartialObjectEnum {
    A,
    B,
}

/// The tag text of one enumeration value.
pub open spec fn enum_tag(e: PartialObjectEnum) -> Seq<char> {
    match e {
        PartialObjectEnum::A => "A"@,
        PartialObjectEnum::B => "B"@,
    }
}

/// What a JSON value decodes to as an enumeration value: a known tag
/// maps to itself, everything else to the default tag.
pub open spec fn enum_from_view(v: JsonView) -> PartialObjectEnum {
    match v {
        JsonView::Str(s) => if s == "A"@ {
            PartialObjectEnum::A
        } else if s == "B"@ {
            PartialObjectEnum::B
        } else {
            PartialObjectEnum::A
        },
        _ => PartialObjectEnum::A,
    }
}

impl PartialObjectEnum {
    /// The bare constructor: the default tag.
    pub fn new() -> (r: Self)
        ensures
            r == PartialObjectEnum::A,
    {
        PartialObjectEnum::A
    }

    /// Decodes a JSON value; an unknown tag or a non-string value
    /// yields the default tag, never an error.
    pub fn from_json(input: JsonValue) -> (r: Self)
        ensures
            r == enum_from_view(input@),
    {
        match input {
            JsonValue::Str(s) => {
                if str_is(&s, "A") {
                    PartialObjectEnum::A
                } else if str_is(&s, "B") {
                    PartialObjectEnum::B
                } else {
                    PartialObjectEnum::A
                }
            },
            _ => PartialObjectEnum::A,
        }
    }

    /// Decodes JSON text; text that does not parse yields the default
    /// tag.
    pub fn from_json_string(input: String) -> (r: Self)
        ensures
            r == (match parsed_json(input@) {
                Some(v) => enum_from_view(v),
                None => PartialObjectEnum::A,
            }),
    {
        match parse_json(input.as_str()) {
            Some(v) => Self::from_json(v),
            None => Self::new(),
        }
    }

    /// Encodes the tag as a quoted JSON string.
    #[verifier::rlimit(100)]
    pub fn to_json_string(&self) -> (r: String)
        ensures
            r@ == seq!['"'] + enum_tag(*self) + seq!['"'],
    {
        proof {
            reveal_strlit("A");
            reveal_strlit("B");
            reveal_strlit("\"A\"");
            reveal_strlit("\"B\"");
        }
        match self {
            PartialObjectEnum::A => {
                let r = String::from_str("\"A\"");
                proof {
                    assert(r@ =~= seq!['"'] + enum_tag(*self) + seq!['"']);
                }
                r
            },
            PartialObjectEnum::B => {
                let r = String::from_str("\"B\"");
                proof {
                    assert(r@ =~= seq!['"'] + enum_tag(*self) + seq!['"']);
                }
                r
            },
        }
    }

    /// Encodes the bare tag text for a query string.
    #[verifier::rlimit(100)]
    pub fn to_query_params_string(&self) -> (r: String)
        ensures
            r@ == enum_tag(*self),
    {
        match self {
            PartialObjectEnum::A => String::from_str("A"),
            PartialObjectEnum::B => String::from_str("B"),
        }
    }
}

impl DeepView for JsonValue {
    type V = JsonView;

    open spec fn deep_view(&self) -> JsonView {
        jv_view(*self)
    }
}

/// The schema's record: every field independently optional.
///
/// The two floating-point fields hold the decimal rendering of their
/// values as text, because floating point itself cannot appear in
/// verified code: the embedding renders and narrows the numbers and the
/// codec carries the text through both encoders. The verified decoder
/// therefore leaves those two fields absent.
#[derive(Debug, PartialEq)]
pub struct PartialObject {
    pub any: Option<JsonValue>,
    pub string: Option<String>,
    pub boolean: Option<bool>,
    pub float32: Option<String>,
    pub float64: Option<String>,
    pub int8: Option<i8>,
    pub uint8: Option<u8>,
    pub int16: Option<i16>,
    pub uint16: Option<u16>,
    pub int32: Option<i32>,
    pub uint32: Option<u32>,
    pub int64: Option<i64>,
    pub uint64: Option<u64>,
    pub timestamp: Option<String>,
    pub enumeration: Option<PartialObjectEnum>,
    pub string_array: Option<Vec<String>>,
}

/// The mathematical shape of a `PartialObject`.
pub struct PartialObjectView {
    pub any: Option<JsonView>,
    pub string: Option<Seq<char>>,
    pub boolean: Option<bool>,
    pub float32: Option<Seq<char>>,
    pub float64: Option<Seq<char>>,
    pub int8: Option<i8>,
    pub uint8: Option<u8>,
    pub int16: Option<i16>,
    pub uint16: Option<u16>,
    pub int32: Option<i32>,
    pub uint32: Option<u32>,
    pub int64: Option<i64>,
    pub uint64: Option<u64>,
    pub timestamp: Option<Seq<char>>,
    pub enumeration: Option<PartialObjectEnum>,
    pub string_array: Option<Seq<Seq<char>>>,
}

impl View for PartialObject {
    type V = PartialObjectView;

    open spec fn view(&self) -> PartialObjectView {
        PartialObjectView {
            any: self.any.deep_view(),
            string: self.string.deep_view(),
            boolean: self.boolean,
            float32: self.float32.deep_view(),
            float64: self.float64.deep_view(),
            int8: self.int8,
            uint8: self.uint8,
            int16: self.int16,
            uint16: self.uint16,
            int32: self.int32,
            uint32: self.uint32,
            int64: self.int64,
            uint64: self.uint64,
            timestamp: self.timestamp.deep_view(),
            enumeration: self.enumeration,
            string_array: self.string_array.deep_view(),
        }
    }
}

/// The all-absent record.
pub open spec fn absent_view() -> PartialObjectView {
    PartialObjectView {
        any: None,
        string: None,
        boolean: None,
        float32: None,
        float64: None,
        int8: None,
        uint8: None,
        int16: None,
        uint16: None,
        int32: None,
        uint32: None,
        int64: None,
        uint64: None,
        timestamp: None,
        enumeration: None,
        string_array: None,
    }
}

// --- what decoding means, field by field ---

/// Looks a wire key up among an object's entries; the first occurrence
/// wins.
pub open spec fn jlookup(o: Seq<(Seq<char>, JsonView)>, key: Seq<char>) -> Option<JsonView>
    decreases o.len(),
{
    if o.len() == 0 {
        None
    } else if o[0].0 == key {
        Some(o[0].1)
    } else {
        jlookup(o.drop_first(), key)
    }
}

/// A string field accepts only a JSON string.
pub open spec fn dec_string(f: Option<JsonView>) -> Option<Seq<char>> {
    match f {
        Some(JsonView::Str(s)) => Some(s),
        _ => None,
    }
}

/// A boolean field accepts only a JSON boolean.
pub open spec fn dec_bool(f: Option<JsonView>) -> Option<bool> {
    match f {
        Some(JsonView::Bool(b)) => Some(b),
        _ => None,
    }
}

/// A fixed-width integer field accepts only a JSON number: a value
/// inside `[lo, hi]` narrows to itself, any other number becomes zero,
/// still present.
pub open spec fn dec_narrow(f: Option<JsonView>, lo: int, hi: int) -> Option<i64> {
    match f {
        Some(JsonView::Int(i)) => Some(
            if lo <= i as int && i as int <= hi {
                i
            } else {
                0
            },
        ),
        Some(JsonView::NumText(_)) => Some(0i64),
        _ => None,
    }
}

pub open spec fn dec_i8(f: Option<JsonView>) -> Option<i8> {
    match dec_narrow(f, i8::MIN as int, i8::MAX as int) {
        Some(i) => Some(i as i8),
        None => None,
    }
}

pub open spec fn dec_u8(f: Option<JsonView>) -> Option<u8> {
    match dec_narrow(f, 0, u8::MAX as int) {
        Some(i) => Some(i as u8),
        None => None,
    }
}

pub open spec fn dec_i16(f: Option<JsonView>) -> Option<i16> {
    match dec_narrow(f, i16::MIN as int, i16::MAX as int) {
        Some(i) => Some(i as i16),
        None => None,
    }
}

pub open spec fn dec_u16(f: Option<JsonView>) -> Option<u16> {
    match dec_narrow(f, 0, u16::MAX as int) {
        Some(i) => Some(i as u16),
        None => None,
    }
}

pub open spec fn dec_i32(f: Option<JsonView>) -> Option<i32> {
    match dec_narrow(f, i32::MIN as int, i32::MAX as int) {
        Some(i) => Some(i as i32),
        None => None,
    }
}

pub open spec fn dec_u32(f: Option<JsonView>) -> Option<u32> {
    match dec_narrow(f, 0, u32::MAX as int) {
        Some(i) => Some(i as u32),
        None => None,
    }
}

/// A 64-bit integer field accepts only a JSON string, parsed as
/// decimal; a string that does not parse becomes zero, still present.
pub open spec fn dec_i64(f: Option<JsonView>) -> Option<i64> {
    match f {
        Some(JsonView::Str(s)) => Some(
            match parse_i64_spec(s) {
                Some(v) => v,
                None => 0i64,
            },
        ),
        _ => None,
    }
}

pub open spec fn dec_u64(f: Option<JsonView>) -> Option<u64> {
    match f {
        Some(JsonView::Str(s)) => Some(
            match parse_u64_spec(s) {
                Some(v) => v,
                None => 0u64,
            },
        ),
        _ => None,
    }
}

/// The timestamp fallback: the Unix epoch at offset zero.
pub open spec fn epoch_text() -> Seq<char> {
    "1970-01-01T00:00:00+00:00"@
}

/// A timestamp field accepts only a JSON string, parsed as RFC 3339 and
/// kept in its canonical rendering; a string that does not parse
/// becomes the epoch, still present.
pub open spec fn dec_timestamp(f: Option<JsonView>) -> Option<Seq<char>> {
    match f {
        Some(JsonView::Str(s)) => Some(
            match rfc3339_canon(s) {
                Some(c) => c,
                None => epoch_text(),
            },
        ),
        _ => None,
    }
}

/// An enumeration field delegates any present value to the nested
/// codec, which never fails.
pub open spec fn dec_enum(f: Option<JsonView>) -> Option<PartialObjectEnum> {
    match f {
        Some(v) => Some(enum_from_view(v)),
        None => None,
    }
}

/// One array element coerced to a string: a JSON string maps to itself,
/// anything else to the empty string.
pub open spec fn coerced_string(v: JsonView) -> Seq<char> {
    match v {
        JsonView::Str(s) => s,
        _ => Seq::empty(),
    }
}

/// A string-array field accepts only a JSON array; elements are coerced
/// one for one, so the length is preserved.
pub open spec fn dec_string_array(f: Option<JsonView>) -> Option<Seq<Seq<char>>> {
    match f {
        Some(JsonView::Arr(a)) => Some(Seq::new(a.len(), |i: int| coerced_string(a[i]))),
        _ => None,
    }
}

/// What a whole JSON value decodes to: a JSON object decodes field by
/// field, independently, by wire key; anything else is the all-absent
/// record. The two floating-point fields stay absent (see
/// `PartialObject`).
pub open spec fn decoded_view(v: JsonView) -> PartialObjectView {
    match v {
        JsonView::Obj(o) => PartialObjectView {
            any: jlookup(o, "any"@),
            string: dec_string(jlookup(o, "string"@)),
            boolean: dec_bool(jlookup(o, "boolean"@)),
            float32: None,
            float64: None,
            int8: dec_i8(jlookup(o, "int8"@)),
            uint8: dec_u8(jlookup(o, "uint8"@)),
            int16: dec_i16(jlookup(o, "int16"@)),
            uint16: dec_u16(jlookup(o, "uint16"@)),
            int32: dec_i32(jlookup(o, "int32"@)),
            uint32: dec_u32(jlookup(o, "uint32"@)),
            int64: dec_i64(jlookup(o, "int64"@)),
            uint64: dec_u64(jlookup(o, "uint64"@)),
            timestamp: dec_timestamp(jlookup(o, "timestamp"@)),
            enumeration: dec_enum(jlookup(o, "enum"@)),
            string_array: dec_string_array(jlookup(o, "stringArray"@)),
        },
        _ => absent_view(),
    }
}

// --- the exec narrowing steps, one per field type ---

fn take_string(slot: Option<JsonValue>) -> (r: Option<String>)
    ensures
        r.deep_view() == dec_string(slot.deep_view()),
{
    match slot {
        Some(JsonValue::Str(s)) => Some(s),
        _ => None,
    }
}

fn take_bool(slot: Option<JsonValue>) -> (r: Option<bool>)
    ensures
        r == dec_bool(slot.deep_view()),
{
    match slot {
        Some(JsonValue::Bool(b)) => Some(b),
        _ => None,
    }
}

fn take_i8(slot: Option<JsonValue>) -> (r: Option<i8>)
    ensures
        r == dec_i8(slot.deep_view()),
{
    match slot {
        Some(JsonValue::Int(i)) => Some(
            if -128 <= i && i <= 127 {
                i as i8
            } else {
                0
            },
        ),
        Some(JsonValue::NumText(_)) => Some(0),
        _ => None,
    }
}

fn take_u8(slot: Option<JsonValue>) -> (r: Option<u8>)
    ensures
        r == dec_u8(slot.deep_view()),
{
    match slot {
        Some(JsonValue::Int(i)) => Some(
            if 0 <= i && i <= 255 {
                i as u8
            } else {
                0
            },
        ),
        Some(JsonValue::NumText(_)) => Some(0),
        _ => None,
    }
}

fn take_i16(slot: Option<JsonValue>) -> (r: Option<i16>)
    ensures
        r == dec_i16(slot.deep_view()),
{
    match slot {
        Some(JsonValue::Int(i)) => Some(
            if -32768 <= i && i <= 32767 {
                i as i16
            } else {
                0
            },
        ),
        Some(JsonValue::NumText(_)) => Some(0),
        _ => None,
    }
}

fn take_u16(slot: Option<JsonValue>) -> (r: Option<u16>)
    ensures
        r == dec_u16(slot.deep_view()),
{
    match slot {
        Some(JsonValue::Int(i)) => Some(
            if 0 <= i && i <= 65535 {
                i as u16
            } else {
                0
            },
        ),
        Some(JsonValue::NumText(_)) => Some(0),
        _ => None,
    }
}

fn take_i32(slot: Option<JsonValue>) -> (r: Option<i32>)
    ensures
        r == dec_i32(slot.deep_view()),
{
    match slot {
        Some(JsonValue::Int(i)) => Some(
            if -2147483648 <= i && i <= 2147483647 {
                i as i32
            } else {
                0
            },
        ),
        Some(JsonValue::NumText(_)) => Some(0),
        _ => None,
    }
}

fn take_u32(slot: Option<JsonValue>) -> (r: Option<u32>)
    ensures
        r == dec_u32(slot.deep_view()),
{
    match slot {
        Some(JsonValue::Int(i)) => Some(
            if 0 <= i && i <= 4294967295 {
                i as u32
            } else {
                0
            },
        ),
        Some(JsonValue::NumText(_)) => Some(0),
        _ => None,
    }
}

fn take_i64(slot: Option<JsonValue>) -> (r: Option<i64>)
    ensures
        r == dec_i64(slot.deep_view()),
{
    match slot {
        Some(JsonValue::Str(s)) => Some(
            match parse_i64(s.as_str()) {
                Some(v) => v,
                None => 0,
            },
        ),
        _ => None,
    }
}

fn take_u64(slot: Option<JsonValue>) -> (r: Option<u64>)
    ensures
        r == dec_u64(slot.deep_view()),
{
    match slot {
        Some(JsonValue::Str(s)) => Some(
            match parse_u64(s.as_str()) {
                Some(v) => v,
                None => 0,
            },
        ),
        _ => None,
    }
}

fn take_timestamp(slot: Option<JsonValue>) -> (r: Option<String>)
    ensures
        r.deep_view() == dec_timestamp(slot.deep_view()),
{
    match slot {
        Some(JsonValue::Str(s)) => Some(
            match canonicalize_rfc3339(s.as_str()) {
                Some(c) => c,
                None => epoch_rfc3339(),
            },
        ),
        _ => None,
    }
}

fn take_enum(slot: Option<JsonValue>) -> (r: Option<PartialObjectEnum>)
    ensures
        r == dec_enum(slot.deep_view()),
{
    match slot {
        Some(v) => Some(PartialObjectEnum::from_json(v)),
        None => None,
    }
}

/// Coerces every array element to a string, keeping the length.
fn coerce_strings(a: Vec<JsonValue>) -> (r: Vec<String>)
    ensures
        r.deep_view() == Seq::new(a@.len(), |i: int| coerced_string(jv_views(a@)[i])),
{
    let ghost views = jv_views(a@);
    proof {
        crate::json::lemma_jv_views(a@);
    }
    let mut r: Vec<String> = Vec::new();
    let mut i: usize = 0;
    while i < a.len()
        invariant
            i <= a.len(),
            views == jv_views(a@),
            views.len() == a@.len(),
            forall|k: int| 0 <= k < a@.len() ==> views[k] == jv_view(a@[k]),
            r@.len() == i,
            forall|k: int|
                0 <= k < i ==> #[trigger] r@[k].deep_view() == coerced_string(views[k]),
        decreases a.len() - i,
    {
        match &a[i] {
            JsonValue::Str(s) => {
                r.push(s.clone());
            },
            _ => {
                r.push(String::new());
            },
        }
        i = i + 1;
    }
    proof {
        assert(forall|k: int| 0 <= k < a@.len() ==> r.deep_view()[k] == r@[k].deep_view());
        assert(r.deep_view() =~= Seq::new(a@.len(), |k: int| coerced_string(views[k])));
    }
    r
}

fn take_string_array(slot: Option<JsonValue>) -> (r: Option<Vec<String>>)
    ensures
        r.deep_view() == dec_string_array(slot.deep_view()),
{
    match slot {
        Some(JsonValue::Arr(a)) => {
            proof {
                crate::json::lemma_jv_views(a@);
            }
            let ghost views = jv_views(a@);
            let r = coerce_strings(a);
            proof {
                assert(Seq::new(views.len(), |i: int| coerced_string(views[i])) =~= r.deep_view());
            }
            Some(r)
        },
        _ => None,
    }
}

impl PartialObject {
    /// The bare constructor: every field absent.
    pub fn new() -> (r: Self)
        ensures
            r@ == absent_view(),
    {
        PartialObject {
            any: None,
            string: None,
            boolean: None,
            float32: None,
            float64: None,
            int8: None,
            uint8: None,
            int16: None,
            uint16: None,
            int32: None,
            uint32: None,
            int64: None,
            uint64: None,
            timestamp: None,
            enumeration: None,
            string_array: None,
        }
    }

    /// Decodes a JSON value, never failing: a non-object input or a
    /// field of the wrong JSON type leaves fields absent; a
    /// right-typed value that fails to narrow or parse becomes a
    /// present zero value.
    #[verifier::rlimit(100)]
    pub fn from_json(input: JsonValue) -> (r: Self)
        ensures
            r@ == decoded_view(input@),
    {
        match input {
            JsonValue::Obj(mut entries) => {
                let ghost entries0 = entries@;
                let ghost views = jv_entry_views(entries0);
                proof {
                    lemma_jv_entry_views(entries0);
                }
                let mut s_any: Option<JsonValue> = None;
                let mut s_string: Option<JsonValue> = None;
                let mut s_boolean: Option<JsonValue> = None;
                let mut s_int8: Option<JsonValue> = None;
                let mut s_uint8: Option<JsonValue> = None;
                let mut s_int16: Option<JsonValue> = None;
                let mut s_uint16: Option<JsonValue> = None;
                let mut s_int32: Option<JsonValue> = None;
                let mut s_uint32: Option<JsonValue> = None;
                let mut s_int64: Option<JsonValue> = None;
                let mut s_uint64: Option<JsonValue> = None;
                let mut s_timestamp: Option<JsonValue> = None;
                let mut s_enum: Option<JsonValue> = None;
                let mut s_string_array: Option<JsonValue> = None;
                while entries.len() > 0
                    invariant
                        views == jv_entry_views(entries0),
                        views.len() == entries0.len(),
                        forall|k: int|
                            0 <= k < entries0.len() ==> views[k] == (
                            entries0[k].0@,
                            jv_view(entries0[k].1),
                            ),
                        entries@.len() <= entries0.len(),
                        entries@ =~= entries0.take(entries@.len() as int),
                        s_any.deep_view() == jlookup(views.skip(entries@.len() as int), "any"@),
                        s_string.deep_view() == jlookup(
                            views.skip(entries@.len() as int),
                            "string"@,
                        ),
                        s_boolean.deep_view() == jlookup(
                            views.skip(entries@.len() as int),
                            "boolean"@,
                        ),
                        s_int8.deep_view() == jlookup(views.skip(entries@.len() as int), "int8"@),
                        s_uint8.deep_view() == jlookup(
                            views.skip(entries@.len() as int),
                            "uint8"@,
                        ),
                        s_int16.deep_view() == jlookup(
                            views.skip(entries@.len() as int),
                            "int16"@,
                        ),
                        s_uint16.deep_view() == jlookup(
                            views.skip(entries@.len() as int),
                            "uint16"@,
                        ),
                        s_int32.deep_view() == jlookup(
                            views.skip(entries@.len() as int),
                            "int32"@,
                        ),
                        s_uint32.deep_view() == jlookup(
                            views.skip(entries@.len() as int),
                            "uint32"@,
                        ),
                        s_int64.deep_view() == jlookup(
                            views.skip(entries@.len() as int),
                            "int64"@,
                        ),
                        s_uint64.deep_view() == jlookup(
                            views.skip(entries@.len() as int),
                            "uint64"@,
                        ),
                        s_timestamp.deep_view() == jlookup(
                            views.skip(entries@.len() as int),
                            "timestamp"@,
                        ),
                        s_enum.deep_view() == jlookup(views.skip(entries@.len() as int), "enum"@),
                        s_string_array.deep_view() == jlookup(
                            views.skip(entries@.len() as int),
                            "stringArray"@,
                        ),
                    decreases entries@.len(),
                {
                    let ghost j = entries@.len() as int;
                    let e = entries.pop().unwrap();
                    proof {
                        reveal_strlit("any");
                        reveal_strlit("string");
                        reveal_strlit("boolean");
                        reveal_strlit("int8");
                        reveal_strlit("uint8");
                        reveal_strlit("int16");
                        reveal_strlit("uint16");
                        reveal_strlit("int32");
                        reveal_strlit("uint32");
                        reveal_strlit("int64");
                        reveal_strlit("uint64");
                        reveal_strlit("timestamp");
                        reveal_strlit("enum");
                        reveal_strlit("stringArray");
                        assert("int8"@ != "enum"@) by {
                            assert("int8"@[0] != "enum"@[0]);
                        }
                        assert("uint8"@ != "int16"@) by {
                            assert("uint8"@[0] != "int16"@[0]);
                        }
                        assert("uint8"@ != "int32"@) by {
                            assert("uint8"@[0] != "int32"@[0]);
                        }
                        assert("uint8"@ != "int64"@) by {
                            assert("uint8"@[0] != "int64"@[0]);
                        }
                        assert("int16"@ != "int32"@) by {
                            assert("int16"@[3] != "int32"@[3]);
                        }
                        assert("int16"@ != "int64"@) by {
                            assert("int16"@[3] != "int64"@[3]);
                        }
                        assert("int32"@ != "int64"@) by {
                            assert("int32"@[3] != "int64"@[3]);
                        }
                        assert("string"@ != "uint16"@) by {
                            assert("string"@[0] != "uint16"@[0]);
                        }
                        assert("string"@ != "uint32"@) by {
                            assert("string"@[0] != "uint32"@[0]);
                        }
                        assert("string"@ != "uint64"@) by {
                            assert("string"@[0] != "uint64"@[0]);
                        }
                        assert("uint16"@ != "uint32"@) by {
                            assert("uint16"@[4] != "uint32"@[4]);
                        }
                        assert("uint16"@ != "uint64"@) by {
                            assert("uint16"@[4] != "uint64"@[4]);
                        }
                        assert("uint32"@ != "uint64"@) by {
                            assert("uint32"@[4] != "uint64"@[4]);
                        }
                        assert(entries0.take(j)[j - 1] == entries0[j - 1]);
                        assert(entries0.take(j).drop_last() =~= entries0.take(j - 1));
                        assert(e == entries0[j - 1]);
                        assert(views.skip(j - 1)[0] == views[j - 1]);
                        assert(views.skip(j - 1).drop_first() =~= views.skip(j));
                        assert(views[j - 1].0 == e.0@);
                        assert(views[j - 1].1 == jv_view(e.1));
                    }
                    let (k, v) = e;
                    if str_is(&k, "any") {
                        s_any = Some(v);
                    } else if str_is(&k, "string") {
                        s_string = Some(v);
                    } else if str_is(&k, "boolean") {
                        s_boolean = Some(v);
                    } else if str_is(&k, "int8") {
                        s_int8 = Some(v);
                    } else if str_is(&k, "uint8") {
                        s_uint8 = Some(v);
                    } else if str_is(&k, "int16") {
                        s_int16 = Some(v);
                    } else if str_is(&k, "uint16") {
                        s_uint16 = Some(v);
                    } else if str_is(&k, "int32") {
                        s_int32 = Some(v);
                    } else if str_is(&k, "uint32") {
                        s_uint32 = Some(v);
                    } else if str_is(&k, "int64") {
                        s_int64 = Some(v);
                    } else if str_is(&k, "uint64") {
                        s_uint64 = Some(v);
                    } else if str_is(&k, "timestamp") {
                        s_timestamp = Some(v);
                    } else if str_is(&k, "enum") {
                        s_enum = Some(v);
                    } else if str_is(&k, "stringArray") {
                        s_string_array = Some(v);
                    }
                }
                proof {
                    assert(views.skip(0) =~= views);
                    assert(entries@.len() == 0);
                }
                PartialObject {
                    any: s_any,
                    string: take_string(s_string),
                    boolean: take_bool(s_boolean),
                    float32: None,
                    float64: None,
                    int8: take_i8(s_int8),
                    uint8: take_u8(s_uint8),
                    int16: take_i16(s_int16),
                    uint16: take_u16(s_uint16),
                    int32: take_i32(s_int32),
                    uint32: take_u32(s_uint32),
                    int64: take_i64(s_int64),
                    uint64: take_u64(s_uint64),
                    timestamp: take_timestamp(s_timestamp),
                    enumeration: take_enum(s_enum),
                    string_array: take_string_array(s_string_array),
                }
            },
            _ => Self::new(),
        }
    }

    /// Decodes JSON text; text that does not parse yields the
    /// all-absent record.
    pub fn from_json_string(input: String) -> (r: Self)
        ensures
            r@ == (match parsed_json(input@) {
                Some(v) => decoded_view(v),
                None => absent_view(),
            }),
    {
        match parse_json(input.as_str()) {
            Some(v) => Self::from_json(v),
            None => Self::new(),
        }
    }
}

// --- what encoding means, field by field ---

/// One optional output piece: a present field contributes its text, an
/// absent one nothing.
pub open spec fn opt_part(present: bool, text: Seq<char>) -> Seq<Seq<char>> {
    if present {
        seq![text]
    } else {
        Seq::empty()
    }
}

/// A quoted, minimally escaped string.
pub open spec fn quoted_min(s: Seq<char>) -> Seq<char> {
    seq!['"'] + esc_min(s) + seq!['"']
}

/// The bracketed list form of a string array, shared by both encoders.
pub open spec fn string_array_value_text(elems: Seq<Seq<char>>) -> Seq<char> {
    seq!['['] + join_texts(Seq::new(elems.len(), |i: int| quoted_min(elems[i])), ',') + seq![']']
}

pub open spec fn je_any(v: JsonView) -> Seq<char> {
    "\"any\":"@ + json_text(v)
}

pub open spec fn je_string(s: Seq<char>) -> Seq<char> {
    "\"string\":"@ + seq!['"'] + esc_min(s) + seq!['"']
}

pub open spec fn je_boolean(b: bool) -> Seq<char> {
    "\"boolean\":"@ + bool_text(b)
}

pub open spec fn je_float32(t: Seq<char>) -> Seq<char> {
    "\"float32\":"@ + t
}

pub open spec fn je_float64(t: Seq<char>) -> Seq<char> {
    "\"float64\":"@ + t
}

pub open spec fn je_int8(i: i8) -> Seq<char> {
    "\"int8\":"@ + int_text(i as int)
}

pub open spec fn je_uint8(u: u8) -> Seq<char> {
    "\"uint8\":"@ + int_text(u as int)
}

pub open spec fn je_int16(i: i16) -> Seq<char> {
    "\"int16\":"@ + int_text(i as int)
}

pub open spec fn je_uint16(u: u16) -> Seq<char> {
    "\"uint16\":"@ + int_text(u as int)
}

pub open spec fn je_int32(i: i32) -> Seq<char> {
    "\"int32\":"@ + int_text(i as int)
}

pub open spec fn je_uint32(u: u32) -> Seq<char> {
    "\"uint32\":"@ + int_text(u as int)
}

pub open spec fn je_int64(i: i64) -> Seq<char> {
    "\"int64\":"@ + seq!['"'] + int_text(i as int) + seq!['"']
}

pub open spec fn je_uint64(u: u64) -> Seq<char> {
    "\"uint64\":"@ + seq!['"'] + int_text(u as int) + seq!['"']
}

pub open spec fn je_timestamp(t: Seq<char>) -> Seq<char> {
    "\"timestamp\":"@ + seq!['"'] + t + seq!['"']
}

pub open spec fn je_enum(e: PartialObjectEnum) -> Seq<char> {
    "\"enum\":"@ + seq!['"'] + enum_tag(e) + seq!['"']
}

pub open spec fn je_string_array(elems: Seq<Seq<char>>) -> Seq<char> {
    "\"stringArray\":"@ + string_array_value_text(elems)
}

/// The first half of the JSON entries, in schema order.
pub open spec fn json_entries_a(x: PartialObjectView) -> Seq<Seq<char>> {
    opt_part(x.any is Some, je_any(x.any->0)) + opt_part(x.string is Some, je_string(x.string->0))
        + opt_part(x.boolean is Some, je_boolean(x.boolean->0)) + opt_part(
        x.float32 is Some,
        je_float32(x.float32->0),
    ) + opt_part(x.float64 is Some, je_float64(x.float64->0)) + opt_part(
        x.int8 is Some,
        je_int8(x.int8->0),
    ) + opt_part(x.uint8 is Some, je_uint8(x.uint8->0)) + opt_part(
        x.int16 is Some,
        je_int16(x.int16->0),
    )
}

/// The second half of the JSON entries, in schema order.
pub open spec fn json_entries_b(x: PartialObjectView) -> Seq<Seq<char>> {
    opt_part(x.uint16 is Some, je_uint16(x.uint16->0)) + opt_part(
        x.int32 is Some,
        je_int32(x.int32->0),
    ) + opt_part(x.uint32 is Some, je_uint32(x.uint32->0)) + opt_part(
        x.int64 is Some,
        je_int64(x.int64->0),
    ) + opt_part(x.uint64 is Some, je_uint64(x.uint64->0)) + opt_part(
        x.timestamp is Some,
        je_timestamp(x.timestamp->0),
    ) + opt_part(x.enumeration is Some, je_enum(x.enumeration->0)) + opt_part(
        x.string_array is Some,
        je_string_array(x.string_array->0),
    )
}

/// The JSON entry texts of the present fields, in schema order.
pub open spec fn json_entries(x: PartialObjectView) -> Seq<Seq<char>> {
    json_entries_a(x) + json_entries_b(x)
}

/// The whole JSON text of a record: the present entries, comma-joined,
/// braced.
pub open spec fn json_text_of(x: PartialObjectView) -> Seq<char> {
    seq!['{'] + join_texts(json_entries(x), ',') + seq!['}']
}

pub open spec fn qe_any(v: JsonView) -> Seq<char> {
    "any="@ + json_text(v)
}

pub open spec fn qe_string(s: Seq<char>) -> Seq<char> {
    "string="@ + s
}

pub open spec fn qe_boolean(b: bool) -> Seq<char> {
    "boolean="@ + bool_text(b)
}

pub open spec fn qe_float32(t: Seq<char>) -> Seq<char> {
    "float32="@ + t
}

pub open spec fn qe_float64(t: Seq<char>) -> Seq<char> {
    "float64="@ + t
}

pub open spec fn qe_int8(i: i8) -> Seq<char> {
    "int8="@ + int_text(i as int)
}

pub open spec fn qe_uint8(u: u8) -> Seq<char> {
    "uint8="@ + int_text(u as int)
}

pub open spec fn qe_int16(i: i16) -> Seq<char> {
    "int16="@ + int_text(i as int)
}

pub open spec fn qe_uint16(u: u16) -> Seq<char> {
    "uint16="@ + int_text(u as int)
}

pub open spec fn qe_int32(i: i32) -> Seq<char> {
    "int32="@ + int_text(i as int)
}

pub open spec fn qe_uint32(u: u32) -> Seq<char> {
    "uint32="@ + int_text(u as int)
}

pub open spec fn qe_int64(i: i64) -> Seq<char> {
    "int64="@ + int_text(i as int)
}

pub open spec fn qe_uint64(u: u64) -> Seq<char> {
    "uint64="@ + int_text(u as int)
}

pub open spec fn qe_timestamp(t: Seq<char>) -> Seq<char> {
    "timestamp="@ + t
}

pub open spec fn qe_enum(e: PartialObjectEnum) -> Seq<char> {
    "enum="@ + enum_tag(e)
}

pub open spec fn qe_string_array(elems: Seq<Seq<char>>) -> Seq<char> {
    "stringArray="@ + string_array_value_text(elems)
}

/// The first half of the query pairs, in schema order.
pub open spec fn query_entries_a(x: PartialObjectView) -> Seq<Seq<char>> {
    opt_part(x.any is Some, qe_any(x.any->0)) + opt_part(x.string is Some, qe_string(x.string->0))
        + opt_part(x.boolean is Some, qe_boolean(x.boolean->0)) + opt_part(
        x.float32 is Some,
        qe_float32(x.float32->0),
    ) + opt_part(x.float64 is Some, qe_float64(x.float64->0)) + opt_part(
        x.int8 is Some,
        qe_int8(x.int8->0),
    ) + opt_part(x.uint8 is Some, qe_uint8(x.uint8->0)) + opt_part(
        x.int16 is Some,
        qe_int16(x.int16->0),
    )
}

/// The second half of the query pairs, in schema order.
pub open spec fn query_entries_b(x: PartialObjectView) -> Seq<Seq<char>> {
    opt_part(x.uint16 is Some, qe_uint16(x.uint16->0)) + opt_part(
        x.int32 is Some,
        qe_int32(x.int32->0),
    ) + opt_part(x.uint32 is Some, qe_uint32(x.uint32->0)) + opt_part(
        x.int64 is Some,
        qe_int64(x.int64->0),
    ) + opt_part(x.uint64 is Some, qe_uint64(x.uint64->0)) + opt_part(
        x.timestamp is Some,
        qe_timestamp(x.timestamp->0),
    ) + opt_part(x.enumeration is Some, qe_enum(x.enumeration->0)) + opt_part(
        x.string_array is Some,
        qe_string_array(x.string_array->0),
    )
}

/// The query pair texts of the present fields, in schema order.
pub open spec fn query_entries(x: PartialObjectView) -> Seq<Seq<char>> {
    query_entries_a(x) + query_entries_b(x)
}

/// The whole query string of a record: the present pairs, joined with
/// ampersands; no percent-encoding is performed, the caller escapes.
pub open spec fn query_text_of(x: PartialObjectView) -> Seq<char> {
    join_texts(query_entries(x), '&')
}

// --- building the output, one present field at a time ---

/// Writes the bracketed, quoted, minimally escaped list form of a
/// string array.
#[verifier::loop_isolation(false)]
fn push_string_array_value(a: &Vec<String>, out: &mut String)
    ensures
        final(out)@ == old(out)@ + string_array_value_text(a.deep_view()),
{
    push_char(out, '[');
    let ghost texts = Seq::new(a.deep_view().len(), |i: int| quoted_min(a.deep_view()[i]));
    let mut i: usize = 0;
    while i < a.len()
        invariant
            i <= a.len(),
            out@ == old(out)@ + seq!['['] + join_texts(texts.take(i as int), ','),
        decreases a.len() - i,
    {
        if i > 0 {
            push_char(out, ',');
        }
        push_char(out, '"');
        push_esc_min(a[i].as_str(), out);
        push_char(out, '"');
        proof {
            assert(a@[i as int]@ == a.deep_view()[i as int]);
            lemma_join_snoc(texts, ',', i as int);
            assert(out@ == old(out)@ + seq!['['] + join_texts(texts.take(i + 1), ','));
        }
        i = i + 1;
    }
    proof {
        assert(texts.take(a.len() as int) =~= texts);
    }
    push_char(out, ']');
}

/// Appends one finished entry to the part list.
fn push_part(parts: &mut Vec<String>, e: String)
    ensures
        final(parts).deep_view() == old(parts).deep_view() + seq![e@],
{
    let ghost pre = parts.deep_view();
    let ghost ev = e@;
    parts.push(e);
    proof {
        assert(parts.deep_view() =~= pre + seq![ev]);
    }
}

fn add_any_part(parts: &mut Vec<String>, prefix: &str, f: &Option<JsonValue>)
    ensures
        final(parts).deep_view() == old(parts).deep_view() + opt_part(
            f.deep_view() is Some,
            prefix@ + json_text(f.deep_view()->0),
        ),
{
    match f {
        Some(v) => {
            let mut e = String::from_str(prefix);
            crate::json::push_json(v, &mut e);
            push_part(parts, e);
        },
        None => {
            proof {
                assert(parts.deep_view() + Seq::<Seq<char>>::empty() =~= parts.deep_view());
            }
        },
    }
}

fn add_text_part(parts: &mut Vec<String>, prefix: &str, f: &Option<String>)
    ensures
        final(parts).deep_view() == old(parts).deep_view() + opt_part(
            f.deep_view() is Some,
            prefix@ + f.deep_view()->0,
        ),
{
    match f {
        Some(t) => {
            let mut e = String::from_str(prefix);
            e.append(t.as_str());
            push_part(parts, e);
        },
        None => {
            proof {
                assert(parts.deep_view() + Seq::<Seq<char>>::empty() =~= parts.deep_view());
            }
        },
    }
}

fn add_quoted_text_part(parts: &mut Vec<String>, prefix: &str, f: &Option<String>)
    ensures
        final(parts).deep_view() == old(parts).deep_view() + opt_part(
            f.deep_view() is Some,
            prefix@ + seq!['"'] + f.deep_view()->0 + seq!['"'],
        ),
{
    match f {
        Some(t) => {
            let mut e = String::from_str(prefix);
            push_char(&mut e, '"');
            e.append(t.as_str());
            push_char(&mut e, '"');
            push_part(parts, e);
        },
        None => {
            proof {
                assert(parts.deep_view() + Seq::<Seq<char>>::empty() =~= parts.deep_view());
            }
        },
    }
}

fn add_quoted_min_part(parts: &mut Vec<String>, prefix: &str, f: &Option<String>)
    ensures
        final(parts).deep_view() == old(parts).deep_view() + opt_part(
            f.deep_view() is Some,
            prefix@ + seq!['"'] + esc_min(f.deep_view()->0) + seq!['"'],
        ),
{
    match f {
        Some(s) => {
            let mut e = String::from_str(prefix);
            push_char(&mut e, '"');
            push_esc_min(s.as_str(), &mut e);
            push_char(&mut e, '"');
            push_part(parts, e);
        },
        None => {
            proof {
                assert(parts.deep_view() + Seq::<Seq<char>>::empty() =~= parts.deep_view());
            }
        },
    }
}

fn add_bool_part(parts: &mut Vec<String>, prefix: &str, f: Option<bool>)
    ensures
        final(parts).deep_view() == old(parts).deep_view() + opt_part(
            f is Some,
            prefix@ + bool_text(f->0),
        ),
{
    match f {
        Some(b) => {
            let mut e = String::from_str(prefix);
            if b {
                e.append("true");
            } else {
                e.append("false");
            }
            push_part(parts, e);
        },
        None => {
            proof {
                assert(parts.deep_view() + Seq::<Seq<char>>::empty() =~= parts.deep_view());
            }
        },
    }
}

fn add_int_part(parts: &mut Vec<String>, prefix: &str, f: Option<i64>)
    ensures
        final(parts).deep_view() == old(parts).deep_view() + opt_part(
            f is Some,
            prefix@ + int_text(f->0 as int),
        ),
{
    match f {
        Some(i) => {
            let mut e = String::from_str(prefix);
            push_int(i, &mut e);
            push_part(parts, e);
        },
        None => {
            proof {
                assert(parts.deep_view() + Seq::<Seq<char>>::empty() =~= parts.deep_view());
            }
        },
    }
}

fn add_quoted_int_part(parts: &mut Vec<String>, prefix: &str, f: Option<i64>)
    ensures
        final(parts).deep_view() == old(parts).deep_view() + opt_part(
            f is Some,
            prefix@ + seq!['"'] + int_text(f->0 as int) + seq!['"'],
        ),
{
    match f {
        Some(i) => {
            let mut e = String::from_str(prefix);
            push_char(&mut e, '"');
            push_int(i, &mut e);
            push_char(&mut e, '"');
            push_part(parts, e);
        },
        None => {
            proof {
                assert(parts.deep_view() + Seq::<Seq<char>>::empty() =~= parts.deep_view());
            }
        },
    }
}

fn add_u64_part(parts: &mut Vec<String>, prefix: &str, f: Option<u64>)
    ensures
        final(parts).deep_view() == old(parts).deep_view() + opt_part(
            f is Some,
            prefix@ + int_text(f->0 as int),
        ),
{
    match f {
        Some(u) => {
            let mut e = String::from_str(prefix);
            push_dec(u, &mut e);
            proof {
                assert(int_text(u as int) == dec_text(u as nat));
            }
            push_part(parts, e);
        },
        None => {
            proof {
                assert(parts.deep_view() + Seq::<Seq<char>>::empty() =~= parts.deep_view());
            }
        },
    }
}

fn add_quoted_u64_part(parts: &mut Vec<String>, prefix: &str, f: Option<u64>)
    ensures
        final(parts).deep_view() == old(parts).deep_view() + opt_part(
            f is Some,
            prefix@ + seq!['"'] + int_text(f->0 as int) + seq!['"'],
        ),
{
    match f {
        Some(u) => {
            let mut e = String::from_str(prefix);
            push_char(&mut e, '"');
            push_dec(u, &mut e);
            push_char(&mut e, '"');
            proof {
                assert(int_text(u as int) == dec_text(u as nat));
            }
            push_part(parts, e);
        },
        None => {
            proof {
                assert(parts.deep_view() + Seq::<Seq<char>>::empty() =~= parts.deep_view());
            }
        },
    }
}

fn add_enum_json_part(parts: &mut Vec<String>, prefix: &str, f: Option<PartialObjectEnum>)
    ensures
        final(parts).deep_view() == old(parts).deep_view() + opt_part(
            f is Some,
            prefix@ + seq!['"'] + enum_tag(f->0) + seq!['"'],
        ),
{
    match f {
        Some(v) => {
            let mut e = String::from_str(prefix);
            push_char(&mut e, '"');
            let t = v.to_query_params_string();
            e.append(t.as_str());
            push_char(&mut e, '"');
            push_part(parts, e);
        },
        None => {
            proof {
                assert(parts.deep_view() + Seq::<Seq<char>>::empty() =~= parts.deep_view());
            }
        },
    }
}

fn add_enum_query_part(parts: &mut Vec<String>, prefix: &str, f: Option<PartialObjectEnum>)
    ensures
        final(parts).deep_view() == old(parts).deep_view() + opt_part(
            f is Some,
            prefix@ + enum_tag(f->0),
        ),
{
    match f {
        Some(v) => {
            let mut e = String::from_str(prefix);
            let t = v.to_query_params_string();
            e.append(t.as_str());
            push_part(parts, e);
        },
        None => {
            proof {
                assert(parts.deep_view() + Seq::<Seq<char>>::empty() =~= parts.deep_view());
            }
        },
    }
}

fn add_array_part(parts: &mut Vec<String>, prefix: &str, f: &Option<Vec<String>>)
    ensures
        final(parts).deep_view() == old(parts).deep_view() + opt_part(
            f.deep_view() is Some,
            prefix@ + string_array_value_text(f.deep_view()->0),
        ),
{
    match f {
        Some(a) => {
            let mut e = String::from_str(prefix);
            push_string_array_value(a, &mut e);
            push_part(parts, e);
        },
        None => {
            proof {
                assert(parts.deep_view() + Seq::<Seq<char>>::empty() =~= parts.deep_view());
            }
        },
    }
}

fn widen_i8(f: Option<i8>) -> (r: Option<i64>)
    ensures
        (r is Some) == (f is Some),
        r is Some ==> r->0 == f->0 as i64,
{
    match f {
        Some(i) => Some(i as i64),
        None => None,
    }
}

fn widen_u8(f: Option<u8>) -> (r: Option<i64>)
    ensures
        (r is Some) == (f is Some),
        r is Some ==> r->0 == f->0 as i64,
{
    match f {
        Some(u) => Some(u as i64),
        None => None,
    }
}

fn widen_i16(f: Option<i16>) -> (r: Option<i64>)
    ensures
        (r is Some) == (f is Some),
        r is Some ==> r->0 == f->0 as i64,
{
    match f {
        Some(i) => Some(i as i64),
        None => None,
    }
}

fn widen_u16(f: Option<u16>) -> (r: Option<i64>)
    ensures
        (r is Some) == (f is Some),
        r is Some ==> r->0 == f->0 as i64,
{
    match f {
        Some(u) => Some(u as i64),
        None => None,
    }
}

fn widen_i32(f: Option<i32>) -> (r: Option<i64>)
    ensures
        (r is Some) == (f is Some),
        r is Some ==> r->0 == f->0 as i64,
{
    match f {
        Some(i) => Some(i as i64),
        None => None,
    }
}

fn widen_u32(f: Option<u32>) -> (r: Option<i64>)
    ensures
        (r is Some) == (f is Some),
        r is Some ==> r->0 == f->0 as i64,
{
    match f {
        Some(u) => Some(u as i64),
        None => None,
    }
}

impl PartialObject {
    /// Appends the first half of the JSON entries.
    #[verifier::rlimit(100)]
    fn add_json_parts_a(&self, parts: &mut Vec<String>)
        ensures
            final(parts).deep_view() == old(parts).deep_view() + json_entries_a(self@),
    {
        let ghost x = self@;
        let ghost pre = parts.deep_view();
        add_any_part(parts, "\"any\":", &self.any);
        let ghost mut done: Seq<Seq<char>> = pre + opt_part(x.any is Some, je_any(x.any->0));
        add_quoted_min_part(parts, "\"string\":", &self.string);
        proof {
            done = done + opt_part(x.string is Some, je_string(x.string->0));
            assert(parts.deep_view() == done);
        }
        add_bool_part(parts, "\"boolean\":", self.boolean);
        proof {
            done = done + opt_part(x.boolean is Some, je_boolean(x.boolean->0));
            assert(parts.deep_view() == done);
        }
        add_text_part(parts, "\"float32\":", &self.float32);
        proof {
            done = done + opt_part(x.float32 is Some, je_float32(x.float32->0));
            assert(parts.deep_view() == done);
        }
        add_text_part(parts, "\"float64\":", &self.float64);
        proof {
            done = done + opt_part(x.float64 is Some, je_float64(x.float64->0));
            assert(parts.deep_view() == done);
        }
        add_int_part(parts, "\"int8\":", widen_i8(self.int8));
        proof {
            done = done + opt_part(x.int8 is Some, je_int8(x.int8->0));
            assert(parts.deep_view() == done);
        }
        add_int_part(parts, "\"uint8\":", widen_u8(self.uint8));
        proof {
            done = done + opt_part(x.uint8 is Some, je_uint8(x.uint8->0));
            assert(parts.deep_view() == done);
        }
        add_int_part(parts, "\"int16\":", widen_i16(self.int16));
        proof {
            done = done + opt_part(x.int16 is Some, je_int16(x.int16->0));
            assert(parts.deep_view() == done);
        }
        proof {
            let t1 = opt_part(x.any is Some, je_any(x.any->0));
            let t2 = opt_part(x.string is Some, je_string(x.string->0));
            let t3 = opt_part(x.boolean is Some, je_boolean(x.boolean->0));
            let t4 = opt_part(x.float32 is Some, je_float32(x.float32->0));
            let t5 = opt_part(x.float64 is Some, je_float64(x.float64->0));
            let t6 = opt_part(x.int8 is Some, je_int8(x.int8->0));
            let t7 = opt_part(x.uint8 is Some, je_uint8(x.uint8->0));
            let t8 = opt_part(x.int16 is Some, je_int16(x.int16->0));
            vstd::seq_lib::lemma_concat_associative(pre, t1, t2);
            vstd::seq_lib::lemma_concat_associative(pre, t1 + t2, t3);
            vstd::seq_lib::lemma_concat_associative(pre, t1 + t2 + t3, t4);
            vstd::seq_lib::lemma_concat_associative(pre, t1 + t2 + t3 + t4, t5);
            vstd::seq_lib::lemma_concat_associative(pre, t1 + t2 + t3 + t4 + t5, t6);
            vstd::seq_lib::lemma_concat_associative(pre, t1 + t2 + t3 + t4 + t5 + t6, t7);
            vstd::seq_lib::lemma_concat_associative(pre, t1 + t2 + t3 + t4 + t5 + t6 + t7, t8);
            assert(parts.deep_view() == pre + json_entries_a(x));
        }
    }

    /// Appends the second half of the JSON entries.
    #[verifier::rlimit(100)]
    fn add_json_parts_b(&self, parts: &mut Vec<String>)
        ensures
            final(parts).deep_view() == old(parts).deep_view() + json_entries_b(self@),
    {
        let ghost x = self@;
        let ghost pre = parts.deep_view();
        add_int_part(parts, "\"uint16\":", widen_u16(self.uint16));
        let ghost mut done: Seq<Seq<char>> = pre + opt_part(
            x.uint16 is Some,
            je_uint16(x.uint16->0),
        );
        add_int_part(parts, "\"int32\":", widen_i32(self.int32));
        proof {
            done = done + opt_part(x.int32 is Some, je_int32(x.int32->0));
            assert(parts.deep_view() == done);
        }
        add_int_part(parts, "\"uint32\":", widen_u32(self.uint32));
        proof {
            done = done + opt_part(x.uint32 is Some, je_uint32(x.uint32->0));
            assert(parts.deep_view() == done);
        }
        add_quoted_int_part(parts, "\"int64\":", self.int64);
        proof {
            done = done + opt_part(x.int64 is Some, je_int64(x.int64->0));
            assert(parts.deep_view() == done);
        }
        add_quoted_u64_part(parts, "\"uint64\":", self.uint64);
        proof {
            done = done + opt_part(x.uint64 is Some, je_uint64(x.uint64->0));
            assert(parts.deep_view() == done);
        }
        add_quoted_text_part(parts, "\"timestamp\":", &self.timestamp);
        proof {
            done = done + opt_part(x.timestamp is Some, je_timestamp(x.timestamp->0));
            assert(parts.deep_view() == done);
        }
        add_enum_json_part(parts, "\"enum\":", self.enumeration);
        proof {
            done = done + opt_part(x.enumeration is Some, je_enum(x.enumeration->0));
            assert(parts.deep_view() == done);
        }
        add_array_part(parts, "\"stringArray\":", &self.string_array);
        proof {
            done = done + opt_part(x.string_array is Some, je_string_array(x.string_array->0));
            assert(parts.deep_view() == done);
        }
        proof {
            let t1 = opt_part(x.uint16 is Some, je_uint16(x.uint16->0));
            let t2 = opt_part(x.int32 is Some, je_int32(x.int32->0));
            let t3 = opt_part(x.uint32 is Some, je_uint32(x.uint32->0));
            let t4 = opt_part(x.int64 is Some, je_int64(x.int64->0));
            let t5 = opt_part(x.uint64 is Some, je_uint64(x.uint64->0));
            let t6 = opt_part(x.timestamp is Some, je_timestamp(x.timestamp->0));
            let t7 = opt_part(x.enumeration is Some, je_enum(x.enumeration->0));
            let t8 = opt_part(x.string_array is Some, je_string_array(x.string_array->0));
            vstd::seq_lib::lemma_concat_associative(pre, t1, t2);
            vstd::seq_lib::lemma_concat_associative(pre, t1 + t2, t3);
            vstd::seq_lib::lemma_concat_associative(pre, t1 + t2 + t3, t4);
            vstd::seq_lib::lemma_concat_associative(pre, t1 + t2 + t3 + t4, t5);
            vstd::seq_lib::lemma_concat_associative(pre, t1 + t2 + t3 + t4 + t5, t6);
            vstd::seq_lib::lemma_concat_associative(pre, t1 + t2 + t3 + t4 + t5 + t6, t7);
            vstd::seq_lib::lemma_concat_associative(pre, t1 + t2 + t3 + t4 + t5 + t6 + t7, t8);
            assert(parts.deep_view() == pre + json_entries_b(x));
        }
    }

    /// Encodes exactly the present fields, in schema order, as one JSON
    /// object; an all-absent record encodes as `{}`.
    pub fn to_json_string(&self) -> (r: String)
        ensures
            r@ == json_text_of(self@),
    {
        let ghost x = self@;
        let mut parts: Vec<String> = Vec::new();
        self.add_json_parts_a(&mut parts);
        self.add_json_parts_b(&mut parts);
        proof {
            assert(Seq::<Seq<char>>::empty() + json_entries_a(x) =~= json_entries_a(x));
            assert(parts.deep_view() == json_entries(x));
        }
        let mut r = String::from_str("{");
        let joined = join_parts(&parts, ',');
        r.append(joined.as_str());
        r.append("}");
        proof {
            reveal_strlit("{");
            reveal_strlit("}");
            assert(r@ =~= json_text_of(x));
        }
        r
    }

    /// Appends the first half of the query pairs.
    #[verifier::rlimit(100)]
    fn add_query_parts_a(&self, parts: &mut Vec<String>)
        ensures
            final(parts).deep_view() == old(parts).deep_view() + query_entries_a(self@),
    {
        let ghost x = self@;
        let ghost pre = parts.deep_view();
        add_any_part(parts, "any=", &self.any);
        let ghost mut done: Seq<Seq<char>> = pre + opt_part(x.any is Some, qe_any(x.any->0));
        add_text_part(parts, "string=", &self.string);
        proof {
            done = done + opt_part(x.string is Some, qe_string(x.string->0));
            assert(parts.deep_view() == done);
        }
        add_bool_part(parts, "boolean=", self.boolean);
        proof {
            done = done + opt_part(x.boolean is Some, qe_boolean(x.boolean->0));
            assert(parts.deep_view() == done);
        }
        add_text_part(parts, "float32=", &self.float32);
        proof {
            done = done + opt_part(x.float32 is Some, qe_float32(x.float32->0));
            assert(parts.deep_view() == done);
        }
        add_text_part(parts, "float64=", &self.float64);
        proof {
            done = done + opt_part(x.float64 is Some, qe_float64(x.float64->0));
            assert(parts.deep_view() == done);
        }
        add_int_part(parts, "int8=", widen_i8(self.int8));
        proof {
            done = done + opt_part(x.int8 is Some, qe_int8(x.int8->0));
            assert(parts.deep_view() == done);
        }
        add_int_part(parts, "uint8=", widen_u8(self.uint8));
        proof {
            done = done + opt_part(x.uint8 is Some, qe_uint8(x.uint8->0));
            assert(parts.deep_view() == done);
        }
        add_int_part(parts, "int16=", widen_i16(self.int16));
        proof {
            done = done + opt_part(x.int16 is Some, qe_int16(x.int16->0));
            assert(parts.deep_view() == done);
        }
        proof {
            let t1 = opt_part(x.any is Some, qe_any(x.any->0));
            let t2 = opt_part(x.string is Some, qe_string(x.string->0));
            let t3 = opt_part(x.boolean is Some, qe_boolean(x.boolean->0));
            let t4 = opt_part(x.float32 is Some, qe_float32(x.float32->0));
            let t5 = opt_part(x.float64 is Some, qe_float64(x.float64->0));
            let t6 = opt_part(x.int8 is Some, qe_int8(x.int8->0));
            let t7 = opt_part(x.uint8 is Some, qe_uint8(x.uint8->0));
            let t8 = opt_part(x.int16 is Some, qe_int16(x.int16->0));
            vstd::seq_lib::lemma_concat_associative(pre, t1, t2);
            vstd::seq_lib::lemma_concat_associative(pre, t1 + t2, t3);
            vstd::seq_lib::lemma_concat_associative(pre, t1 + t2 + t3, t4);
            vstd::seq_lib::lemma_concat_associative(pre, t1 + t2 + t3 + t4, t5);
            vstd::seq_lib::lemma_concat_associative(pre, t1 + t2 + t3 + t4 + t5, t6);
            vstd::seq_lib::lemma_concat_associative(pre, t1 + t2 + t3 + t4 + t5 + t6, t7);
            vstd::seq_lib::lemma_concat_associative(pre, t1 + t2 + t3 + t4 + t5 + t6 + t7, t8);
            assert(parts.deep_view() == pre + query_entries_a(x));
        }
    }

    /// Appends the second half of the query pairs.
    #[verifier::rlimit(100)]
    fn add_query_parts_b(&self, parts: &mut Vec<String>)
        ensures
            final(parts).deep_view() == old(parts).deep_view() + query_entries_b(self@),
    {
        let ghost x = self@;
        let ghost pre = parts.deep_view();
        add_int_part(parts, "uint16=", widen_u16(self.uint16));
        let ghost mut done: Seq<Seq<char>> = pre + opt_part(
            x.uint16 is Some,
            qe_uint16(x.uint16->0),
        );
        add_int_part(parts, "int32=", widen_i32(self.int32));
        proof {
            done = done + opt_part(x.int32 is Some, qe_int32(x.int32->0));
            assert(parts.deep_view() == done);
        }
        add_int_part(parts, "uint32=", widen_u32(self.uint32));
        proof {
            done = done + opt_part(x.uint32 is Some, qe_uint32(x.uint32->0));
            assert(parts.deep_view() == done);
        }
        add_int_part(parts, "int64=", self.int64);
        proof {
            done = done + opt_part(x.int64 is Some, qe_int64(x.int64->0));
            assert(parts.deep_view() == done);
        }
        add_u64_part(parts, "uint64=", self.uint64);
        proof {
            done = done + opt_part(x.uint64 is Some, qe_uint64(x.uint64->0));
            assert(parts.deep_view() == done);
        }
        add_text_part(parts, "timestamp=", &self.timestamp);
        proof {
            done = done + opt_part(x.timestamp is Some, qe_timestamp(x.timestamp->0));
            assert(parts.deep_view() == done);
        }
        add_enum_query_part(parts, "enum=", self.enumeration);
        proof {
            done = done + opt_part(x.enumeration is Some, qe_enum(x.enumeration->0));
            assert(parts.deep_view() == done);
        }
        add_array_part(parts, "stringArray=", &self.string_array);
        proof {
            done = done + opt_part(x.string_array is Some, qe_string_array(x.string_array->0));
            assert(parts.deep_view() == done);
        }
        proof {
            let t1 = opt_part(x.uint16 is Some, qe_uint16(x.uint16->0));
            let t2 = opt_part(x.int32 is Some, qe_int32(x.int32->0));
            let t3 = opt_part(x.uint32 is Some, qe_uint32(x.uint32->0));
            let t4 = opt_part(x.int64 is Some, qe_int64(x.int64->0));
            let t5 = opt_part(x.uint64 is Some, qe_uint64(x.uint64->0));
            let t6 = opt_part(x.timestamp is Some, qe_timestamp(x.timestamp->0));
            let t7 = opt_part(x.enumeration is Some, qe_enum(x.enumeration->0));
            let t8 = opt_part(x.string_array is Some, qe_string_array(x.string_array->0));
            vstd::seq_lib::lemma_concat_associative(pre, t1, t2);
            vstd::seq_lib::lemma_concat_associative(pre, t1 + t2, t3);
            vstd::seq_lib::lemma_concat_associative(pre, t1 + t2 + t3, t4);
            vstd::seq_lib::lemma_concat_associative(pre, t1 + t2 + t3 + t4, t5);
            vstd::seq_lib::lemma_concat_associative(pre, t1 + t2 + t3 + t4 + t5, t6);
            vstd::seq_lib::lemma_concat_associative(pre, t1 + t2 + t3 + t4 + t5 + t6, t7);
            vstd::seq_lib::lemma_concat_associative(pre, t1 + t2 + t3 + t4 + t5 + t6 + t7, t8);
            assert(parts.deep_view() == pre + query_entries_b(x));
        }
    }

    /// Encodes exactly the present fields, in schema order, as
    /// `&`-joined `key=value` pairs; an all-absent record encodes as
    /// the empty string. Values are not percent-encoded: the caller
    /// escapes the result where that matters.
    pub fn to_query_params_string(&self) -> (r: String)
        ensures
            r@ == query_text_of(self@),
    {
        let ghost x = self@;
        let mut parts: Vec<String> = Vec::new();
        self.add_query_parts_a(&mut parts);
        self.add_query_parts_b(&mut parts);
        proof {
            assert(Seq::<Seq<char>>::empty() + query_entries_a(x) =~= query_entries_a(x));
            assert(parts.deep_view() == query_entries(x));
        }
        let r = join_parts(&parts, '&');
        proof {
            assert(r@ == query_text_of(x));
        }
        r
    }
}

} // verus!

verus! {

// --- the stated laws ---

/// One optional object entry: a present field contributes its wire key
/// and encoded value, an absent one nothing.
pub open spec fn opt_entry(present: bool, key: Seq<char>, v: JsonView) -> Seq<
    (Seq<char>, JsonView),
> {
    if present {
        seq![(key, v)]
    } else {
        Seq::empty()
    }
}

/// The JSON object that the encoding of a record denotes: the present
/// fields, in schema order, each under its wire key, with the encoded
/// value shape of its type. The two floating-point fields do not
/// appear: the verified decoder never produces them.
pub open spec fn reencoded_entries(x: PartialObjectView) -> Seq<(Seq<char>, JsonView)> {
    opt_entry(x.any is Some, "any"@, x.any->0) + opt_entry(
        x.string is Some,
        "string"@,
        JsonView::Str(x.string->0),
    ) + opt_entry(x.boolean is Some, "boolean"@, JsonView::Bool(x.boolean->0)) + opt_entry(
        x.int8 is Some,
        "int8"@,
        JsonView::Int(x.int8->0 as i64),
    ) + opt_entry(x.uint8 is Some, "uint8"@, JsonView::Int(x.uint8->0 as i64)) + opt_entry(
        x.int16 is Some,
        "int16"@,
        JsonView::Int(x.int16->0 as i64),
    ) + opt_entry(x.uint16 is Some, "uint16"@, JsonView::Int(x.uint16->0 as i64)) + opt_entry(
        x.int32 is Some,
        "int32"@,
        JsonView::Int(x.int32->0 as i64),
    ) + opt_entry(x.uint32 is Some, "uint32"@, JsonView::Int(x.uint32->0 as i64)) + opt_entry(
        x.int64 is Some,
        "int64"@,
        JsonView::Str(int_text(x.int64->0 as int)),
    ) + opt_entry(x.uint64 is Some, "uint64"@, JsonView::Str(int_text(x.uint64->0 as int)))
        + opt_entry(x.timestamp is Some, "timestamp"@, JsonView::Str(x.timestamp->0)) + opt_entry(
        x.enumeration is Some,
        "enum"@,
        JsonView::Str(enum_tag(x.enumeration->0)),
    ) + opt_entry(
        x.string_array is Some,
        "stringArray"@,
        JsonView::Arr(Seq::new(x.string_array->0.len(), |i: int| JsonView::Str(x.string_array->0[i]))),
    )
}

/// The JSON value that the encoding of a record denotes.
pub open spec fn reencoded(x: PartialObjectView) -> JsonView {
    JsonView::Obj(reencoded_entries(x))
}

/// Looking a key up in joined entry lists reads the left list first.
pub proof fn lemma_jlookup_concat(
    a: Seq<(Seq<char>, JsonView)>,
    b: Seq<(Seq<char>, JsonView)>,
    k: Seq<char>,
)
    ensures
        jlookup(a + b, k) == (match jlookup(a, k) {
            Some(v) => Some(v),
            None => jlookup(b, k),
        }),
    decreases a.len(),
{
    if a.len() == 0 {
        assert(a + b =~= b);
    } else {
        assert((a + b)[0] == a[0]);
        assert((a + b).len() > 0);
        if a[0].0 == k {
        } else {
            assert((a + b).drop_first() =~= a.drop_first() + b);
            lemma_jlookup_concat(a.drop_first(), b, k);
            assert(jlookup(a + b, k) == jlookup((a + b).drop_first(), k));
            assert(jlookup(a, k) == jlookup(a.drop_first(), k));
        }
    }
}

/// The nested codec round-trips: every tag decodes back from its own
/// encoded form.
pub proof fn lemma_enum_round_trip(e: PartialObjectEnum)
    ensures
        enum_from_view(JsonView::Str(enum_tag(e))) == e,
{
    reveal_strlit("A");
    reveal_strlit("B");
    assert("A"@[0] != "B"@[0]);
}

/// Looking one wire key up in one optional entry.
proof fn lemma_jlookup_opt_entry(p: bool, k1: Seq<char>, v: JsonView, k: Seq<char>)
    ensures
        jlookup(opt_entry(p, k1, v), k) == (if p && k1 == k {
            Some(v)
        } else {
            None
        }),
{
    if p {
        let s = opt_entry(p, k1, v);
        assert(s.len() == 1);
        if k1 != k {
            assert(s.drop_first().len() == 0);
            assert(jlookup(s.drop_first(), k) == None::<JsonView>);
        }
    }
}

/// What the wire key `any` finds in the object that a record's
/// encoding denotes.
#[verifier::rlimit(100)]
proof fn lemma_lookup_any(x: PartialObjectView)
    ensures
        jlookup(reencoded_entries(x), "any"@) == x.any,
{
    reveal_strlit("any");
    reveal_strlit("string");
    reveal_strlit("boolean");
    reveal_strlit("int8");
    reveal_strlit("uint8");
    reveal_strlit("int16");
    reveal_strlit("uint16");
    reveal_strlit("int32");
    reveal_strlit("uint32");
    reveal_strlit("int64");
    reveal_strlit("uint64");
    reveal_strlit("timestamp");
    reveal_strlit("enum");
    reveal_strlit("stringArray");
    assert("string"@ != "any"@) by { assert("string"@.len() == 6 && "any"@.len() == 3); }
    assert("boolean"@ != "any"@) by { assert("boolean"@.len() == 7 && "any"@.len() == 3); }
    assert("int8"@ != "any"@) by { assert("int8"@.len() == 4 && "any"@.len() == 3); }
    assert("uint8"@ != "any"@) by { assert("uint8"@.len() == 5 && "any"@.len() == 3); }
    assert("int16"@ != "any"@) by { assert("int16"@.len() == 5 && "any"@.len() == 3); }
    assert("uint16"@ != "any"@) by { assert("uint16"@.len() == 6 && "any"@.len() == 3); }
    assert("int32"@ != "any"@) by { assert("int32"@.len() == 5 && "any"@.len() == 3); }
    assert("uint32"@ != "any"@) by { assert("uint32"@.len() == 6 && "any"@.len() == 3); }
    assert("int64"@ != "any"@) by { assert("int64"@.len() == 5 && "any"@.len() == 3); }
    assert("uint64"@ != "any"@) by { assert("uint64"@.len() == 6 && "any"@.len() == 3); }
    assert("timestamp"@ != "any"@) by { assert("timestamp"@.len() == 9 && "any"@.len() == 3); }
    assert("enum"@ != "any"@) by { assert("enum"@.len() == 4 && "any"@.len() == 3); }
    assert("stringArray"@ != "any"@) by { assert("stringArray"@.len() == 11 && "any"@.len() == 3); }
    let s1 = opt_entry(x.any is Some, "any"@, x.any->0);
    let s2 = opt_entry(x.string is Some, "string"@, JsonView::Str(x.string->0));
    let s3 = opt_entry(x.boolean is Some, "boolean"@, JsonView::Bool(x.boolean->0));
    let s4 = opt_entry(x.int8 is Some, "int8"@, JsonView::Int(x.int8->0 as i64));
    let s5 = opt_entry(x.uint8 is Some, "uint8"@, JsonView::Int(x.uint8->0 as i64));
    let s6 = opt_entry(x.int16 is Some, "int16"@, JsonView::Int(x.int16->0 as i64));
    let s7 = opt_entry(x.uint16 is Some, "uint16"@, JsonView::Int(x.uint16->0 as i64));
    let s8 = opt_entry(x.int32 is Some, "int32"@, JsonView::Int(x.int32->0 as i64));
    let s9 = opt_entry(x.uint32 is Some, "uint32"@, JsonView::Int(x.uint32->0 as i64));
    let s10 = opt_entry(x.int64 is Some, "int64"@, JsonView::Str(int_text(x.int64->0 as int)));
    let s11 = opt_entry(x.uint64 is Some, "uint64"@, JsonView::Str(int_text(x.uint64->0 as int)));
    let s12 = opt_entry(x.timestamp is Some, "timestamp"@, JsonView::Str(x.timestamp->0));
    let s13 = opt_entry(x.enumeration is Some, "enum"@, JsonView::Str(enum_tag(x.enumeration->0)));
    let s14 = opt_entry(x.string_array is Some, "stringArray"@, JsonView::Arr(Seq::new(x.string_array->0.len(), |i: int| JsonView::Str(x.string_array->0[i]))));
    lemma_jlookup_opt_entry(x.any is Some, "any"@, x.any->0, "any"@);
    lemma_jlookup_opt_entry(x.string is Some, "string"@, JsonView::Str(x.string->0), "any"@);
    lemma_jlookup_opt_entry(x.boolean is Some, "boolean"@, JsonView::Bool(x.boolean->0), "any"@);
    lemma_jlookup_opt_entry(x.int8 is Some, "int8"@, JsonView::Int(x.int8->0 as i64), "any"@);
    lemma_jlookup_opt_entry(x.uint8 is Some, "uint8"@, JsonView::Int(x.uint8->0 as i64), "any"@);
    lemma_jlookup_opt_entry(x.int16 is Some, "int16"@, JsonView::Int(x.int16->0 as i64), "any"@);
    lemma_jlookup_opt_entry(x.uint16 is Some, "uint16"@, JsonView::Int(x.uint16->0 as i64), "any"@);
    lemma_jlookup_opt_entry(x.int32 is Some, "int32"@, JsonView::Int(x.int32->0 as i64), "any"@);
    lemma_jlookup_opt_entry(x.uint32 is Some, "uint32"@, JsonView::Int(x.uint32->0 as i64), "any"@);
    lemma_jlookup_opt_entry(x.int64 is Some, "int64"@, JsonView::Str(int_text(x.int64->0 as int)), "any"@);
    lemma_jlookup_opt_entry(x.uint64 is Some, "uint64"@, JsonView::Str(int_text(x.uint64->0 as int)), "any"@);
    lemma_jlookup_opt_entry(x.timestamp is Some, "timestamp"@, JsonView::Str(x.timestamp->0), "any"@);
    lemma_jlookup_opt_entry(x.enumeration is Some, "enum"@, JsonView::Str(enum_tag(x.enumeration->0)), "any"@);
    lemma_jlookup_opt_entry(x.string_array is Some, "stringArray"@, JsonView::Arr(Seq::new(x.string_array->0.len(), |i: int| JsonView::Str(x.string_array->0[i]))), "any"@);
    let l2 = s1 + s2;
    let l3 = l2 + s3;
    let l4 = l3 + s4;
    let l5 = l4 + s5;
    let l6 = l5 + s6;
    let l7 = l6 + s7;
    let l8 = l7 + s8;
    let l9 = l8 + s9;
    let l10 = l9 + s10;
    let l11 = l10 + s11;
    let l12 = l11 + s12;
    let l13 = l12 + s13;
    let l14 = l13 + s14;
    lemma_jlookup_concat(s1, s2, "any"@);
    lemma_jlookup_concat(l2, s3, "any"@);
    lemma_jlookup_concat(l3, s4, "any"@);
    lemma_jlookup_concat(l4, s5, "any"@);
    lemma_jlookup_concat(l5, s6, "any"@);
    lemma_jlookup_concat(l6, s7, "any"@);
    lemma_jlookup_concat(l7, s8, "any"@);
    lemma_jlookup_concat(l8, s9, "any"@);
    lemma_jlookup_concat(l9, s10, "any"@);
    lemma_jlookup_concat(l10, s11, "any"@);
    lemma_jlookup_concat(l11, s12, "any"@);
    lemma_jlookup_concat(l12, s13, "any"@);
    lemma_jlookup_concat(l13, s14, "any"@);
    assert(reencoded_entries(x) == l14);
}

/// What the wire key `string` finds in the object that a record's
/// encoding denotes.
#[verifier::rlimit(100)]
proof fn lemma_lookup_string(x: PartialObjectView)
    ensures
        jlookup(reencoded_entries(x), "string"@) == (if x.string is Some { Some(JsonView::Str(x.string->0)) } else { None }),
{
    reveal_strlit("any");
    reveal_strlit("string");
    reveal_strlit("boolean");
    reveal_strlit("int8");
    reveal_strlit("uint8");
    reveal_strlit("int16");
    reveal_strlit("uint16");
    reveal_strlit("int32");
    reveal_strlit("uint32");
    reveal_strlit("int64");
    reveal_strlit("uint64");
    reveal_strlit("timestamp");
    reveal_strlit("enum");
    reveal_strlit("stringArray");
    assert("any"@ != "string"@) by { assert("any"@.len() == 3 && "string"@.len() == 6); }
    assert("boolean"@ != "string"@) by { assert("boolean"@.len() == 7 && "string"@.len() == 6); }
    assert("int8"@ != "string"@) by { assert("int8"@.len() == 4 && "string"@.len() == 6); }
    assert("uint8"@ != "string"@) by { assert("uint8"@.len() == 5 && "string"@.len() == 6); }
    assert("int16"@ != "string"@) by { assert("int16"@.len() == 5 && "string"@.len() == 6); }
    assert("uint16"@ != "string"@) by { assert("uint16"@[0] != "string"@[0]); }
    assert("int32"@ != "string"@) by { assert("int32"@.len() == 5 && "string"@.len() == 6); }
    assert("uint32"@ != "string"@) by { assert("uint32"@[0] != "string"@[0]); }
    assert("int64"@ != "string"@) by { assert("int64"@.len() == 5 && "string"@.len() == 6); }
    assert("uint64"@ != "string"@) by { assert("uint64"@[0] != "string"@[0]); }
    assert("timestamp"@ != "string"@) by { assert("timestamp"@.len() == 9 && "string"@.len() == 6); }
    assert("enum"@ != "string"@) by { assert("enum"@.len() == 4 && "string"@.len() == 6); }
    assert("stringArray"@ != "string"@) by { assert("stringArray"@.len() == 11 && "string"@.len() == 6); }
    let s1 = opt_entry(x.any is Some, "any"@, x.any->0);
    let s2 = opt_entry(x.string is Some, "string"@, JsonView::Str(x.string->0));
    let s3 = opt_entry(x.boolean is Some, "boolean"@, JsonView::Bool(x.boolean->0));
    let s4 = opt_entry(x.int8 is Some, "int8"@, JsonView::Int(x.int8->0 as i64));
    let s5 = opt_entry(x.uint8 is Some, "uint8"@, JsonView::Int(x.uint8->0 as i64));
    let s6 = opt_entry(x.int16 is Some, "int16"@, JsonView::Int(x.int16->0 as i64));
    let s7 = opt_entry(x.uint16 is Some, "uint16"@, JsonView::Int(x.uint16->0 as i64));
    let s8 = opt_entry(x.int32 is Some, "int32"@, JsonView::Int(x.int32->0 as i64));
    let s9 = opt_entry(x.uint32 is Some, "uint32"@, JsonView::Int(x.uint32->0 as i64));
    let s10 = opt_entry(x.int64 is Some, "int64"@, JsonView::Str(int_text(x.int64->0 as int)));
    let s11 = opt_entry(x.uint64 is Some, "uint64"@, JsonView::Str(int_text(x.uint64->0 as int)));
    let s12 = opt_entry(x.timestamp is Some, "timestamp"@, JsonView::Str(x.timestamp->0));
    let s13 = opt_entry(x.enumeration is Some, "enum"@, JsonView::Str(enum_tag(x.enumeration->0)));
    let s14 = opt_entry(x.string_array is Some, "stringArray"@, JsonView::Arr(Seq::new(x.string_array->0.len(), |i: int| JsonView::Str(x.string_array->0[i]))));
    lemma_jlookup_opt_entry(x.any is Some, "any"@, x.any->0, "string"@);
    lemma_jlookup_opt_entry(x.string is Some, "string"@, JsonView::Str(x.string->0), "string"@);
    lemma_jlookup_opt_entry(x.boolean is Some, "boolean"@, JsonView::Bool(x.boolean->0), "string"@);
    lemma_jlookup_opt_entry(x.int8 is Some, "int8"@, JsonView::Int(x.int8->0 as i64), "string"@);
    lemma_jlookup_opt_entry(x.uint8 is Some, "uint8"@, JsonView::Int(x.uint8->0 as i64), "string"@);
    lemma_jlookup_opt_entry(x.int16 is Some, "int16"@, JsonView::Int(x.int16->0 as i64), "string"@);
    lemma_jlookup_opt_entry(x.uint16 is Some, "uint16"@, JsonView::Int(x.uint16->0 as i64), "string"@);
    lemma_jlookup_opt_entry(x.int32 is Some, "int32"@, JsonView::Int(x.int32->0 as i64), "string"@);
    lemma_jlookup_opt_entry(x.uint32 is Some, "uint32"@, JsonView::Int(x.uint32->0 as i64), "string"@);
    lemma_jlookup_opt_entry(x.int64 is Some, "int64"@, JsonView::Str(int_text(x.int64->0 as int)), "string"@);
    lemma_jlookup_opt_entry(x.uint64 is Some, "uint64"@, JsonView::Str(int_text(x.uint64->0 as int)), "string"@);
    lemma_jlookup_opt_entry(x.timestamp is Some, "timestamp"@, JsonView::Str(x.timestamp->0), "string"@);
    lemma_jlookup_opt_entry(x.enumeration is Some, "enum"@, JsonView::Str(enum_tag(x.enumeration->0)), "string"@);
    lemma_jlookup_opt_entry(x.string_array is Some, "stringArray"@, JsonView::Arr(Seq::new(x.string_array->0.len(), |i: int| JsonView::Str(x.string_array->0[i]))), "string"@);
    let l2 = s1 + s2;
    let l3 = l2 + s3;
    let l4 = l3 + s4;
    let l5 = l4 + s5;
    let l6 = l5 + s6;
    let l7 = l6 + s7;
    let l8 = l7 + s8;
    let l9 = l8 + s9;
    let l10 = l9 + s10;
    let l11 = l10 + s11;
    let l12 = l11 + s12;
    let l13 = l12 + s13;
    let l14 = l13 + s14;
    lemma_jlookup_concat(s1, s2, "string"@);
    lemma_jlookup_concat(l2, s3, "string"@);
    lemma_jlookup_concat(l3, s4, "string"@);
    lemma_jlookup_concat(l4, s5, "string"@);
    lemma_jlookup_concat(l5, s6, "string"@);
    lemma_jlookup_concat(l6, s7, "string"@);
    lemma_jlookup_concat(l7, s8, "string"@);
    lemma_jlookup_concat(l8, s9, "string"@);
    lemma_jlookup_concat(l9, s10, "string"@);
    lemma_jlookup_concat(l10, s11, "string"@);
    lemma_jlookup_concat(l11, s12, "string"@);
    lemma_jlookup_concat(l12, s13, "string"@);
    lemma_jlookup_concat(l13, s14, "string"@);
    assert(reencoded_entries(x) == l14);
}

/// What the wire key `boolean` finds in the object that a record's
/// encoding denotes.
#[verifier::rlimit(100)]
proof fn lemma_lookup_boolean(x: PartialObjectView)
    ensures
        jlookup(reencoded_entries(x), "boolean"@) == (if x.boolean is Some { Some(JsonView::Bool(x.boolean->0)) } else { None }),
{
    reveal_strlit("any");
    reveal_strlit("string");
    reveal_strlit("boolean");
    reveal_strlit("int8");
    reveal_strlit("uint8");
    reveal_strlit("int16");
    reveal_strlit("uint16");
    reveal_strlit("int32");
    reveal_strlit("uint32");
    reveal_strlit("int64");
    reveal_strlit("uint64");
    reveal_strlit("timestamp");
    reveal_strlit("enum");
    reveal_strlit("stringArray");
    assert("any"@ != "boolean"@) by { assert("any"@.len() == 3 && "boolean"@.len() == 7); }
    assert("string"@ != "boolean"@) by { assert("string"@.len() == 6 && "boolean"@.len() == 7); }
    assert("int8"@ != "boolean"@) by { assert("int8"@.len() == 4 && "boolean"@.len() == 7); }
    assert("uint8"@ != "boolean"@) by { assert("uint8"@.len() == 5 && "boolean"@.len() == 7); }
    assert("int16"@ != "boolean"@) by { assert("int16"@.len() == 5 && "boolean"@.len() == 7); }
    assert("uint16"@ != "boolean"@) by { assert("uint16"@.len() == 6 && "boolean"@.len() == 7); }
    assert("int32"@ != "boolean"@) by { assert("int32"@.len() == 5 && "boolean"@.len() == 7); }
    assert("uint32"@ != "boolean"@) by { assert("uint32"@.len() == 6 && "boolean"@.len() == 7); }
    assert("int64"@ != "boolean"@) by { assert("int64"@.len() == 5 && "boolean"@.len() == 7); }
    assert("uint64"@ != "boolean"@) by { assert("uint64"@.len() == 6 && "boolean"@.len() == 7); }
    assert("timestamp"@ != "boolean"@) by { assert("timestamp"@.len() == 9 && "boolean"@.len() == 7); }
    assert("enum"@ != "boolean"@) by { assert("enum"@.len() == 4 && "boolean"@.len() == 7); }
    assert("stringArray"@ != "boolean"@) by { assert("stringArray"@.len() == 11 && "boolean"@.len() == 7); }
    let s1 = opt_entry(x.any is Some, "any"@, x.any->0);
    let s2 = opt_entry(x.string is Some, "string"@, JsonView::Str(x.string->0));
    let s3 = opt_entry(x.boolean is Some, "boolean"@, JsonView::Bool(x.boolean->0));
    let s4 = opt_entry(x.int8 is Some, "int8"@, JsonView::Int(x.int8->0 as i64));
    let s5 = opt_entry(x.uint8 is Some, "uint8"@, JsonView::Int(x.uint8->0 as i64));
    let s6 = opt_entry(x.int16 is Some, "int16"@, JsonView::Int(x.int16->0 as i64));
    let s7 = opt_entry(x.uint16 is Some, "uint16"@, JsonView::Int(x.uint16->0 as i64));
    let s8 = opt_entry(x.int32 is Some, "int32"@, JsonView::Int(x.int32->0 as i64));
    let s9 = opt_entry(x.uint32 is Some, "uint32"@, JsonView::Int(x.uint32->0 as i64));
    let s10 = opt_entry(x.int64 is Some, "int64"@, JsonView::Str(int_text(x.int64->0 as int)));
    let s11 = opt_entry(x.uint64 is Some, "uint64"@, JsonView::Str(int_text(x.uint64->0 as int)));
    let s12 = opt_entry(x.timestamp is Some, "timestamp"@, JsonView::Str(x.timestamp->0));
    let s13 = opt_entry(x.enumeration is Some, "enum"@, JsonView::Str(enum_tag(x.enumeration->0)));
    let s14 = opt_entry(x.string_array is Some, "stringArray"@, JsonView::Arr(Seq::new(x.string_array->0.len(), |i: int| JsonView::Str(x.string_array->0[i]))));
    lemma_jlookup_opt_entry(x.any is Some, "any"@, x.any->0, "boolean"@);
    lemma_jlookup_opt_entry(x.string is Some, "string"@, JsonView::Str(x.string->0), "boolean"@);
    lemma_jlookup_opt_entry(x.boolean is Some, "boolean"@, JsonView::Bool(x.boolean->0), "boolean"@);
    lemma_jlookup_opt_entry(x.int8 is Some, "int8"@, JsonView::Int(x.int8->0 as i64), "boolean"@);
    lemma_jlookup_opt_entry(x.uint8 is Some, "uint8"@, JsonView::Int(x.uint8->0 as i64), "boolean"@);
    lemma_jlookup_opt_entry(x.int16 is Some, "int16"@, JsonView::Int(x.int16->0 as i64), "boolean"@);
    lemma_jlookup_opt_entry(x.uint16 is Some, "uint16"@, JsonView::Int(x.uint16->0 as i64), "boolean"@);
    lemma_jlookup_opt_entry(x.int32 is Some, "int32"@, JsonView::Int(x.int32->0 as i64), "boolean"@);
    lemma_jlookup_opt_entry(x.uint32 is Some, "uint32"@, JsonView::Int(x.uint32->0 as i64), "boolean"@);
    lemma_jlookup_opt_entry(x.int64 is Some, "int64"@, JsonView::Str(int_text(x.int64->0 as int)), "boolean"@);
    lemma_jlookup_opt_entry(x.uint64 is Some, "uint64"@, JsonView::Str(int_text(x.uint64->0 as int)), "boolean"@);
    lemma_jlookup_opt_entry(x.timestamp is Some, "timestamp"@, JsonView::Str(x.timestamp->0), "boolean"@);
    lemma_jlookup_opt_entry(x.enumeration is Some, "enum"@, JsonView::Str(enum_tag(x.enumeration->0)), "boolean"@);
    lemma_jlookup_opt_entry(x.string_array is Some, "stringArray"@, JsonView::Arr(Seq::new(x.string_array->0.len(), |i: int| JsonView::Str(x.string_array->0[i]))), "boolean"@);
    let l2 = s1 + s2;
    let l3 = l2 + s3;
    let l4 = l3 + s4;
    let l5 = l4 + s5;
    let l6 = l5 + s6;
    let l7 = l6 + s7;
    let l8 = l7 + s8;
    let l9 = l8 + s9;
    let l10 = l9 + s10;
    let l11 = l10 + s11;
    let l12 = l11 + s12;
    let l13 = l12 + s13;
    let l14 = l13 + s14;
    lemma_jlookup_concat(s1, s2, "boolean"@);
    lemma_jlookup_concat(l2, s3, "boolean"@);
    lemma_jlookup_concat(l3, s4, "boolean"@);
    lemma_jlookup_concat(l4, s5, "boolean"@);
    lemma_jlookup_concat(l5, s6, "boolean"@);
    lemma_jlookup_concat(l6, s7, "boolean"@);
    lemma_jlookup_concat(l7, s8, "boolean"@);
    lemma_jlookup_concat(l8, s9, "boolean"@);
    lemma_jlookup_concat(l9, s10, "boolean"@);
    lemma_jlookup_concat(l10, s11, "boolean"@);
    lemma_jlookup_concat(l11, s12, "boolean"@);
    lemma_jlookup_concat(l12, s13, "boolean"@);
    lemma_jlookup_concat(l13, s14, "boolean"@);
    assert(reencoded_entries(x) == l14);
}

/// What the wire key `int8` finds in the object that a record's
/// encoding denotes.
#[verifier::rlimit(100)]
proof fn lemma_lookup_int8(x: PartialObjectView)
    ensures
        jlookup(reencoded_entries(x), "int8"@) == (if x.int8 is Some { Some(JsonView::Int(x.int8->0 as i64)) } else { None }),
{
    reveal_strlit("any");
    reveal_strlit("string");
    reveal_strlit("boolean");
    reveal_strlit("int8");
    reveal_strlit("uint8");
    reveal_strlit("int16");
    reveal_strlit("uint16");
    reveal_strlit("int32");
    reveal_strlit("uint32");
    reveal_strlit("int64");
    reveal_strlit("uint64");
    reveal_strlit("timestamp");
    reveal_strlit("enum");
    reveal_strlit("stringArray");
    assert("any"@ != "int8"@) by { assert("any"@.len() == 3 && "int8"@.len() == 4); }
    assert("string"@ != "int8"@) by { assert("string"@.len() == 6 && "int8"@.len() == 4); }
    assert("boolean"@ != "int8"@) by { assert("boolean"@.len() == 7 && "int8"@.len() == 4); }
    assert("uint8"@ != "int8"@) by { assert("uint8"@.len() == 5 && "int8"@.len() == 4); }
    assert("int16"@ != "int8"@) by { assert("int16"@.len() == 5 && "int8"@.len() == 4); }
    assert("uint16"@ != "int8"@) by { assert("uint16"@.len() == 6 && "int8"@.len() == 4); }
    assert("int32"@ != "int8"@) by { assert("int32"@.len() == 5 && "int8"@.len() == 4); }
    assert("uint32"@ != "int8"@) by { assert("uint32"@.len() == 6 && "int8"@.len() == 4); }
    assert("int64"@ != "int8"@) by { assert("int64"@.len() == 5 && "int8"@.len() == 4); }
    assert("uint64"@ != "int8"@) by { assert("uint64"@.len() == 6 && "int8"@.len() == 4); }
    assert("timestamp"@ != "int8"@) by { assert("timestamp"@.len() == 9 && "int8"@.len() == 4); }
    assert("enum"@ != "int8"@) by { assert("enum"@[0] != "int8"@[0]); }
    assert("stringArray"@ != "int8"@) by { assert("stringArray"@.len() == 11 && "int8"@.len() == 4); }
    let s1 = opt_entry(x.any is Some, "any"@, x.any->0);
    let s2 = opt_entry(x.string is Some, "string"@, JsonView::Str(x.string->0));
    let s3 = opt_entry(x.boolean is Some, "boolean"@, JsonView::Bool(x.boolean->0));
    let s4 = opt_entry(x.int8 is Some, "int8"@, JsonView::Int(x.int8->0 as i64));
    let s5 = opt_entry(x.uint8 is Some, "uint8"@, JsonView::Int(x.uint8->0 as i64));
    let s6 = opt_entry(x.int16 is Some, "int16"@, JsonView::Int(x.int16->0 as i64));
    let s7 = opt_entry(x.uint16 is Some, "uint16"@, JsonView::Int(x.uint16->0 as i64));
    let s8 = opt_entry(x.int32 is Some, "int32"@, JsonView::Int(x.int32->0 as i64));
    let s9 = opt_entry(x.uint32 is Some, "uint32"@, JsonView::Int(x.uint32->0 as i64));
    let s10 = opt_entry(x.int64 is Some, "int64"@, JsonView::Str(int_text(x.int64->0 as int)));
    let s11 = opt_entry(x.uint64 is Some, "uint64"@, JsonView::Str(int_text(x.uint64->0 as int)));
    let s12 = opt_entry(x.timestamp is Some, "timestamp"@, JsonView::Str(x.timestamp->0));
    let s13 = opt_entry(x.enumeration is Some, "enum"@, JsonView::Str(enum_tag(x.enumeration->0)));
    let s14 = opt_entry(x.string_array is Some, "stringArray"@, JsonView::Arr(Seq::new(x.string_array->0.len(), |i: int| JsonView::Str(x.string_array->0[i]))));
    lemma_jlookup_opt_entry(x.any is Some, "any"@, x.any->0, "int8"@);
    lemma_jlookup_opt_entry(x.string is Some, "string"@, JsonView::Str(x.string->0), "int8"@);
    lemma_jlookup_opt_entry(x.boolean is Some, "boolean"@, JsonView::Bool(x.boolean->0), "int8"@);
    lemma_jlookup_opt_entry(x.int8 is Some, "int8"@, JsonView::Int(x.int8->0 as i64), "int8"@);
    lemma_jlookup_opt_entry(x.uint8 is Some, "uint8"@, JsonView::Int(x.uint8->0 as i64), "int8"@);
    lemma_jlookup_opt_entry(x.int16 is Some, "int16"@, JsonView::Int(x.int16->0 as i64), "int8"@);
    lemma_jlookup_opt_entry(x.uint16 is Some, "uint16"@, JsonView::Int(x.uint16->0 as i64), "int8"@);
    lemma_jlookup_opt_entry(x.int32 is Some, "int32"@, JsonView::Int(x.int32->0 as i64), "int8"@);
    lemma_jlookup_opt_entry(x.uint32 is Some, "uint32"@, JsonView::Int(x.uint32->0 as i64), "int8"@);
    lemma_jlookup_opt_entry(x.int64 is Some, "int64"@, JsonView::Str(int_text(x.int64->0 as int)), "int8"@);
    lemma_jlookup_opt_entry(x.uint64 is Some, "uint64"@, JsonView::Str(int_text(x.uint64->0 as int)), "int8"@);
    lemma_jlookup_opt_entry(x.timestamp is Some, "timestamp"@, JsonView::Str(x.timestamp->0), "int8"@);
    lemma_jlookup_opt_entry(x.enumeration is Some, "enum"@, JsonView::Str(enum_tag(x.enumeration->0)), "int8"@);
    lemma_jlookup_opt_entry(x.string_array is Some, "stringArray"@, JsonView::Arr(Seq::new(x.string_array->0.len(), |i: int| JsonView::Str(x.string_array->0[i]))), "int8"@);
    let l2 = s1 + s2;
    let l3 = l2 + s3;
    let l4 = l3 + s4;
    let l5 = l4 + s5;
    let l6 = l5 + s6;
    let l7 = l6 + s7;
    let l8 = l7 + s8;
    let l9 = l8 + s9;
    let l10 = l9 + s10;
    let l11 = l10 + s11;
    let l12 = l11 + s12;
    let l13 = l12 + s13;
    let l14 = l13 + s14;
    lemma_jlookup_concat(s1, s2, "int8"@);
    lemma_jlookup_concat(l2, s3, "int8"@);
    lemma_jlookup_concat(l3, s4, "int8"@);
    lemma_jlookup_concat(l4, s5, "int8"@);
    lemma_jlookup_concat(l5, s6, "int8"@);
    lemma_jlookup_concat(l6, s7, "int8"@);
    lemma_jlookup_concat(l7, s8, "int8"@);
    lemma_jlookup_concat(l8, s9, "int8"@);
    lemma_jlookup_concat(l9, s10, "int8"@);
    lemma_jlookup_concat(l10, s11, "int8"@);
    lemma_jlookup_concat(l11, s12, "int8"@);
    lemma_jlookup_concat(l12, s13, "int8"@);
    lemma_jlookup_concat(l13, s14, "int8"@);
    assert(reencoded_entries(x) == l14);
}

/// What the wire key `uint8` finds in the object that a record's
/// encoding denotes.
#[verifier::rlimit(100)]
proof fn lemma_lookup_uint8(x: PartialObjectView)
    ensures
        jlookup(reencoded_entries(x), "uint8"@) == (if x.uint8 is Some { Some(JsonView::Int(x.uint8->0 as i64)) } else { None }),
{
    reveal_strlit("any");
    reveal_strlit("string");
    reveal_strlit("boolean");
    reveal_strlit("int8");
    reveal_strlit("uint8");
    reveal_strlit("int16");
    reveal_strlit("uint16");
    reveal_strlit("int32");
    reveal_strlit("uint32");
    reveal_strlit("int64");
    reveal_strlit("uint64");
    reveal_strlit("timestamp");
    reveal_strlit("enum");
    reveal_strlit("stringArray");
    assert("any"@ != "uint8"@) by { assert("any"@.len() == 3 && "uint8"@.len() == 5); }
    assert("string"@ != "uint8"@) by { assert("string"@.len() == 6 && "uint8"@.len() == 5); }
    assert("boolean"@ != "uint8"@) by { assert("boolean"@.len() == 7 && "uint8"@.len() == 5); }
    assert("int8"@ != "uint8"@) by { assert("int8"@.len() == 4 && "uint8"@.len() == 5); }
    assert("int16"@ != "uint8"@) by { assert("int16"@[0] != "uint8"@[0]); }
    assert("uint16"@ != "uint8"@) by { assert("uint16"@.len() == 6 && "uint8"@.len() == 5); }
    assert("int32"@ != "uint8"@) by { assert("int32"@[0] != "uint8"@[0]); }
    assert("uint32"@ != "uint8"@) by { assert("uint32"@.len() == 6 && "uint8"@.len() == 5); }
    assert("int64"@ != "uint8"@) by { assert("int64"@[0] != "uint8"@[0]); }
    assert("uint64"@ != "uint8"@) by { assert("uint64"@.len() == 6 && "uint8"@.len() == 5); }
    assert("timestamp"@ != "uint8"@) by { assert("timestamp"@.len() == 9 && "uint8"@.len() == 5); }
    assert("enum"@ != "uint8"@) by { assert("enum"@.len() == 4 && "uint8"@.len() == 5); }
    assert("stringArray"@ != "uint8"@) by { assert("stringArray"@.len() == 11 && "uint8"@.len() == 5); }
    let s1 = opt_entry(x.any is Some, "any"@, x.any->0);
    let s2 = opt_entry(x.string is Some, "string"@, JsonView::Str(x.string->0));
    let s3 = opt_entry(x.boolean is Some, "boolean"@, JsonView::Bool(x.boolean->0));
    let s4 = opt_entry(x.int8 is Some, "int8"@, JsonView::Int(x.int8->0 as i64));
    let s5 = opt_entry(x.uint8 is Some, "uint8"@, JsonView::Int(x.uint8->0 as i64));
    let s6 = opt_entry(x.int16 is Some, "int16"@, JsonView::Int(x.int16->0 as i64));
    let s7 = opt_entry(x.uint16 is Some, "uint16"@, JsonView::Int(x.uint16->0 as i64));
    let s8 = opt_entry(x.int32 is Some, "int32"@, JsonView::Int(x.int32->0 as i64));
    let s9 = opt_entry(x.uint32 is Some, "uint32"@, JsonView::Int(x.uint32->0 as i64));
    let s10 = opt_entry(x.int64 is Some, "int64"@, JsonView::Str(int_text(x.int64->0 as int)));
    let s11 = opt_entry(x.uint64 is Some, "uint64"@, JsonView::Str(int_text(x.uint64->0 as int)));
    let s12 = opt_entry(x.timestamp is Some, "timestamp"@, JsonView::Str(x.timestamp->0));
    let s13 = opt_entry(x.enumeration is Some, "enum"@, JsonView::Str(enum_tag(x.enumeration->0)));
    let s14 = opt_entry(x.string_array is Some, "stringArray"@, JsonView::Arr(Seq::new(x.string_array->0.len(), |i: int| JsonView::Str(x.string_array->0[i]))));
    lemma_jlookup_opt_entry(x.any is Some, "any"@, x.any->0, "uint8"@);
    lemma_jlookup_opt_entry(x.string is Some, "string"@, JsonView::Str(x.string->0), "uint8"@);
    lemma_jlookup_opt_entry(x.boolean is Some, "boolean"@, JsonView::Bool(x.boolean->0), "uint8"@);
    lemma_jlookup_opt_entry(x.int8 is Some, "int8"@, JsonView::Int(x.int8->0 as i64), "uint8"@);
    lemma_jlookup_opt_entry(x.uint8 is Some, "uint8"@, JsonView::Int(x.uint8->0 as i64), "uint8"@);
    lemma_jlookup_opt_entry(x.int16 is Some, "int16"@, JsonView::Int(x.int16->0 as i64), "uint8"@);
    lemma_jlookup_opt_entry(x.uint16 is Some, "uint16"@, JsonView::Int(x.uint16->0 as i64), "uint8"@);
    lemma_jlookup_opt_entry(x.int32 is Some, "int32"@, JsonView::Int(x.int32->0 as i64), "uint8"@);
    lemma_jlookup_opt_entry(x.uint32 is Some, "uint32"@, JsonView::Int(x.uint32->0 as i64), "uint8"@);
    lemma_jlookup_opt_entry(x.int64 is Some, "int64"@, JsonView::Str(int_text(x.int64->0 as int)), "uint8"@);
    lemma_jlookup_opt_entry(x.uint64 is Some, "uint64"@, JsonView::Str(int_text(x.uint64->0 as int)), "uint8"@);
    lemma_jlookup_opt_entry(x.timestamp is Some, "timestamp"@, JsonView::Str(x.timestamp->0), "uint8"@);
    lemma_jlookup_opt_entry(x.enumeration is Some, "enum"@, JsonView::Str(enum_tag(x.enumeration->0)), "uint8"@);
    lemma_jlookup_opt_entry(x.string_array is Some, "stringArray"@, JsonView::Arr(Seq::new(x.string_array->0.len(), |i: int| JsonView::Str(x.string_array->0[i]))), "uint8"@);
    let l2 = s1 + s2;
    let l3 = l2 + s3;
    let l4 = l3 + s4;
    let l5 = l4 + s5;
    let l6 = l5 + s6;
    let l7 = l6 + s7;
    let l8 = l7 + s8;
    let l9 = l8 + s9;
    let l10 = l9 + s10;
    let l11 = l10 + s11;
    let l12 = l11 + s12;
    let l13 = l12 + s13;
    let l14 = l13 + s14;
    lemma_jlookup_concat(s1, s2, "uint8"@);
    lemma_jlookup_concat(l2, s3, "uint8"@);
    lemma_jlookup_concat(l3, s4, "uint8"@);
    lemma_jlookup_concat(l4, s5, "uint8"@);
    lemma_jlookup_concat(l5, s6, "uint8"@);
    lemma_jlookup_concat(l6, s7, "uint8"@);
    lemma_jlookup_concat(l7, s8, "uint8"@);
    lemma_jlookup_concat(l8, s9, "uint8"@);
    lemma_jlookup_concat(l9, s10, "uint8"@);
    lemma_jlookup_concat(l10, s11, "uint8"@);
    lemma_jlookup_concat(l11, s12, "uint8"@);
    lemma_jlookup_concat(l12, s13, "uint8"@);
    lemma_jlookup_concat(l13, s14, "uint8"@);
    assert(reencoded_entries(x) == l14);
}

/// What the wire key `int16` finds in the object that a record's
/// encoding denotes.
#[verifier::rlimit(100)]
proof fn lemma_lookup_int16(x: PartialObjectView)
    ensures
        jlookup(reencoded_entries(x), "int16"@) == (if x.int16 is Some { Some(JsonView::Int(x.int16->0 as i64)) } else { None }),
{
    reveal_strlit("any");
    reveal_strlit("string");
    reveal_strlit("boolean");
    reveal_strlit("int8");
    reveal_strlit("uint8");
    reveal_strlit("int16");
    reveal_strlit("uint16");
    reveal_strlit("int32");
    reveal_strlit("uint32");
    reveal_strlit("int64");
    reveal_strlit("uint64");
    reveal_strlit("timestamp");
    reveal_strlit("enum");
    reveal_strlit("stringArray");
    assert("any"@ != "int16"@) by { assert("any"@.len() == 3 && "int16"@.len() == 5); }
    assert("string"@ != "int16"@) by { assert("string"@.len() == 6 && "int16"@.len() == 5); }
    assert("boolean"@ != "int16"@) by { assert("boolean"@.len() == 7 && "int16"@.len() == 5); }
    assert("int8"@ != "int16"@) by { assert("int8"@.len() == 4 && "int16"@.len() == 5); }
    assert("uint8"@ != "int16"@) by { assert("uint8"@[0] != "int16"@[0]); }
    assert("uint16"@ != "int16"@) by { assert("uint16"@.len() == 6 && "int16"@.len() == 5); }
    assert("int32"@ != "int16"@) by { assert("int32"@[3] != "int16"@[3]); }
    assert("uint32"@ != "int16"@) by { assert("uint32"@.len() == 6 && "int16"@.len() == 5); }
    assert("int64"@ != "int16"@) by { assert("int64"@[3] != "int16"@[3]); }
    assert("uint64"@ != "int16"@) by { assert("uint64"@.len() == 6 && "int16"@.len() == 5); }
    assert("timestamp"@ != "int16"@) by { assert("timestamp"@.len() == 9 && "int16"@.len() == 5); }
    assert("enum"@ != "int16"@) by { assert("enum"@.len() == 4 && "int16"@.len() == 5); }
    assert("stringArray"@ != "int16"@) by { assert("stringArray"@.len() == 11 && "int16"@.len() == 5); }
    let s1 = opt_entry(x.any is Some, "any"@, x.any->0);
    let s2 = opt_entry(x.string is Some, "string"@, JsonView::Str(x.string->0));
    let s3 = opt_entry(x.boolean is Some, "boolean"@, JsonView::Bool(x.boolean->0));
    let s4 = opt_entry(x.int8 is Some, "int8"@, JsonView::Int(x.int8->0 as i64));
    let s5 = opt_entry(x.uint8 is Some, "uint8"@, JsonView::Int(x.uint8->0 as i64));
    let s6 = opt_entry(x.int16 is Some, "int16"@, JsonView::Int(x.int16->0 as i64));
    let s7 = opt_entry(x.uint16 is Some, "uint16"@, JsonView::Int(x.uint16->0 as i64));
    let s8 = opt_entry(x.int32 is Some, "int32"@, JsonView::Int(x.int32->0 as i64));
    let s9 = opt_entry(x.uint32 is Some, "uint32"@, JsonView::Int(x.uint32->0 as i64));
    let s10 = opt_entry(x.int64 is Some, "int64"@, JsonView::Str(int_text(x.int64->0 as int)));
    let s11 = opt_entry(x.uint64 is Some, "uint64"@, JsonView::Str(int_text(x.uint64->0 as int)));
    let s12 = opt_entry(x.timestamp is Some, "timestamp"@, JsonView::Str(x.timestamp->0));
    let s13 = opt_entry(x.enumeration is Some, "enum"@, JsonView::Str(enum_tag(x.enumeration->0)));
    let s14 = opt_entry(x.string_array is Some, "stringArray"@, JsonView::Arr(Seq::new(x.string_array->0.len(), |i: int| JsonView::Str(x.string_array->0[i]))));
    lemma_jlookup_opt_entry(x.any is Some, "any"@, x.any->0, "int16"@);
    lemma_jlookup_opt_entry(x.string is Some, "string"@, JsonView::Str(x.string->0), "int16"@);
    lemma_jlookup_opt_entry(x.boolean is Some, "boolean"@, JsonView::Bool(x.boolean->0), "int16"@);
    lemma_jlookup_opt_entry(x.int8 is Some, "int8"@, JsonView::Int(x.int8->0 as i64), "int16"@);
    lemma_jlookup_opt_entry(x.uint8 is Some, "uint8"@, JsonView::Int(x.uint8->0 as i64), "int16"@);
    lemma_jlookup_opt_entry(x.int16 is Some, "int16"@, JsonView::Int(x.int16->0 as i64), "int16"@);
    lemma_jlookup_opt_entry(x.uint16 is Some, "uint16"@, JsonView::Int(x.uint16->0 as i64), "int16"@);
    lemma_jlookup_opt_entry(x.int32 is Some, "int32"@, JsonView::Int(x.int32->0 as i64), "int16"@);
    lemma_jlookup_opt_entry(x.uint32 is Some, "uint32"@, JsonView::Int(x.uint32->0 as i64), "int16"@);
    lemma_jlookup_opt_entry(x.int64 is Some, "int64"@, JsonView::Str(int_text(x.int64->0 as int)), "int16"@);
    lemma_jlookup_opt_entry(x.uint64 is Some, "uint64"@, JsonView::Str(int_text(x.uint64->0 as int)), "int16"@);
    lemma_jlookup_opt_entry(x.timestamp is Some, "timestamp"@, JsonView::Str(x.timestamp->0), "int16"@);
    lemma_jlookup_opt_entry(x.enumeration is Some, "enum"@, JsonView::Str(enum_tag(x.enumeration->0)), "int16"@);
    lemma_jlookup_opt_entry(x.string_array is Some, "stringArray"@, JsonView::Arr(Seq::new(x.string_array->0.len(), |i: int| JsonView::Str(x.string_array->0[i]))), "int16"@);
    let l2 = s1 + s2;
    let l3 = l2 + s3;
    let l4 = l3 + s4;
    let l5 = l4 + s5;
    let l6 = l5 + s6;
    let l7 = l6 + s7;
    let l8 = l7 + s8;
    let l9 = l8 + s9;
    let l10 = l9 + s10;
    let l11 = l10 + s11;
    let l12 = l11 + s12;
    let l13 = l12 + s13;
    let l14 = l13 + s14;
    lemma_jlookup_concat(s1, s2, "int16"@);
    lemma_jlookup_concat(l2, s3, "int16"@);
    lemma_jlookup_concat(l3, s4, "int16"@);
    lemma_jlookup_concat(l4, s5, "int16"@);
    lemma_jlookup_concat(l5, s6, "int16"@);
    lemma_jlookup_concat(l6, s7, "int16"@);
    lemma_jlookup_concat(l7, s8, "int16"@);
    lemma_jlookup_concat(l8, s9, "int16"@);
    lemma_jlookup_concat(l9, s10, "int16"@);
    lemma_jlookup_concat(l10, s11, "int16"@);
    lemma_jlookup_concat(l11, s12, "int16"@);
    lemma_jlookup_concat(l12, s13, "int16"@);
    lemma_jlookup_concat(l13, s14, "int16"@);
    assert(reencoded_entries(x) == l14);
}

/// What the wire key `uint16` finds in the object that a record's
/// encoding denotes.
#[verifier::rlimit(100)]
proof fn lemma_lookup_uint16(x: PartialObjectView)
    ensures
        jlookup(reencoded_entries(x), "uint16"@) == (if x.uint16 is Some { Some(JsonView::Int(x.uint16->0 as i64)) } else { None }),
{
    reveal_strlit("any");
    reveal_strlit("string");
    reveal_strlit("boolean");
    reveal_strlit("int8");
    reveal_strlit("uint8");
    reveal_strlit("int16");
    reveal_strlit("uint16");
    reveal_strlit("int32");
    reveal_strlit("uint32");
    reveal_strlit("int64");
    reveal_strlit("uint64");
    reveal_strlit("timestamp");
    reveal_strlit("enum");
    reveal_strlit("stringArray");
    assert("any"@ != "uint16"@) by { assert("any"@.len() == 3 && "uint16"@.len() == 6); }
    assert("string"@ != "uint16"@) by { assert("string"@[0] != "uint16"@[0]); }
    assert("boolean"@ != "uint16"@) by { assert("boolean"@.len() == 7 && "uint16"@.len() == 6); }
    assert("int8"@ != "uint16"@) by { assert("int8"@.len() == 4 && "uint16"@.len() == 6); }
    assert("uint8"@ != "uint16"@) by { assert("uint8"@.len() == 5 && "uint16"@.len() == 6); }
    assert("int16"@ != "uint16"@) by { assert("int16"@.len() == 5 && "uint16"@.len() == 6); }
    assert("int32"@ != "uint16"@) by { assert("int32"@.len() == 5 && "uint16"@.len() == 6); }
    assert("uint32"@ != "uint16"@) by { assert("uint32"@[4] != "uint16"@[4]); }
    assert("int64"@ != "uint16"@) by { assert("int64"@.len() == 5 && "uint16"@.len() == 6); }
    assert("uint64"@ != "uint16"@) by { assert("uint64"@[4] != "uint16"@[4]); }
    assert("timestamp"@ != "uint16"@) by { assert("timestamp"@.len() == 9 && "uint16"@.len() == 6); }
    assert("enum"@ != "uint16"@) by { assert("enum"@.len() == 4 && "uint16"@.len() == 6); }
    assert("stringArray"@ != "uint16"@) by { assert("stringArray"@.len() == 11 && "uint16"@.len() == 6); }
    let s1 = opt_entry(x.any is Some, "any"@, x.any->0);
    let s2 = opt_entry(x.string is Some, "string"@, JsonView::Str(x.string->0));
    let s3 = opt_entry(x.boolean is Some, "boolean"@, JsonView::Bool(x.boolean->0));
    let s4 = opt_entry(x.int8 is Some, "int8"@, JsonView::Int(x.int8->0 as i64));
    let s5 = opt_entry(x.uint8 is Some, "uint8"@, JsonView::Int(x.uint8->0 as i64));
    let s6 = opt_entry(x.int16 is Some, "int16"@, JsonView::Int(x.int16->0 as i64));
    let s7 = opt_entry(x.uint16 is Some, "uint16"@, JsonView::Int(x.uint16->0 as i64));
    let s8 = opt_entry(x.int32 is Some, "int32"@, JsonView::Int(x.int32->0 as i64));
    let s9 = opt_entry(x.uint32 is Some, "uint32"@, JsonView::Int(x.uint32->0 as i64));
    let s10 = opt_entry(x.int64 is Some, "int64"@, JsonView::Str(int_text(x.int64->0 as int)));
    let s11 = opt_entry(x.uint64 is Some, "uint64"@, JsonView::Str(int_text(x.uint64->0 as int)));
    let s12 = opt_entry(x.timestamp is Some, "timestamp"@, JsonView::Str(x.timestamp->0));
    let s13 = opt_entry(x.enumeration is Some, "enum"@, JsonView::Str(enum_tag(x.enumeration->0)));
    let s14 = opt_entry(x.string_array is Some, "stringArray"@, JsonView::Arr(Seq::new(x.string_array->0.len(), |i: int| JsonView::Str(x.string_array->0[i]))));
    lemma_jlookup_opt_entry(x.any is Some, "any"@, x.any->0, "uint16"@);
    lemma_jlookup_opt_entry(x.string is Some, "string"@, JsonView::Str(x.string->0), "uint16"@);
    lemma_jlookup_opt_entry(x.boolean is Some, "boolean"@, JsonView::Bool(x.boolean->0), "uint16"@);
    lemma_jlookup_opt_entry(x.int8 is Some, "int8"@, JsonView::Int(x.int8->0 as i64), "uint16"@);
    lemma_jlookup_opt_entry(x.uint8 is Some, "uint8"@, JsonView::Int(x.uint8->0 as i64), "uint16"@);
    lemma_jlookup_opt_entry(x.int16 is Some, "int16"@, JsonView::Int(x.int16->0 as i64), "uint16"@);
    lemma_jlookup_opt_entry(x.uint16 is Some, "uint16"@, JsonView::Int(x.uint16->0 as i64), "uint16"@);
    lemma_jlookup_opt_entry(x.int32 is Some, "int32"@, JsonView::Int(x.int32->0 as i64), "uint16"@);
    lemma_jlookup_opt_entry(x.uint32 is Some, "uint32"@, JsonView::Int(x.uint32->0 as i64), "uint16"@);
    lemma_jlookup_opt_entry(x.int64 is Some, "int64"@, JsonView::Str(int_text(x.int64->0 as int)), "uint16"@);
    lemma_jlookup_opt_entry(x.uint64 is Some, "uint64"@, JsonView::Str(int_text(x.uint64->0 as int)), "uint16"@);
    lemma_jlookup_opt_entry(x.timestamp is Some, "timestamp"@, JsonView::Str(x.timestamp->0), "uint16"@);
    lemma_jlookup_opt_entry(x.enumeration is Some, "enum"@, JsonView::Str(enum_tag(x.enumeration->0)), "uint16"@);
    lemma_jlookup_opt_entry(x.string_array is Some, "stringArray"@, JsonView::Arr(Seq::new(x.string_array->0.len(), |i: int| JsonView::Str(x.string_array->0[i]))), "uint16"@);
    let l2 = s1 + s2;
    let l3 = l2 + s3;
    let l4 = l3 + s4;
    let l5 = l4 + s5;
    let l6 = l5 + s6;
    let l7 = l6 + s7;
    let l8 = l7 + s8;
    let l9 = l8 + s9;
    let l10 = l9 + s10;
    let l11 = l10 + s11;
    let l12 = l11 + s12;
    let l13 = l12 + s13;
    let l14 = l13 + s14;
    lemma_jlookup_concat(s1, s2, "uint16"@);
    lemma_jlookup_concat(l2, s3, "uint16"@);
    lemma_jlookup_concat(l3, s4, "uint16"@);
    lemma_jlookup_concat(l4, s5, "uint16"@);
    lemma_jlookup_concat(l5, s6, "uint16"@);
    lemma_jlookup_concat(l6, s7, "uint16"@);
    lemma_jlookup_concat(l7, s8, "uint16"@);
    lemma_jlookup_concat(l8, s9, "uint16"@);
    lemma_jlookup_concat(l9, s10, "uint16"@);
    lemma_jlookup_concat(l10, s11, "uint16"@);
    lemma_jlookup_concat(l11, s12, "uint16"@);
    lemma_jlookup_concat(l12, s13, "uint16"@);
    lemma_jlookup_concat(l13, s14, "uint16"@);
    assert(reencoded_entries(x) == l14);
}

/// What the wire key `int32` finds in the object that a record's
/// encoding denotes.
#[verifier::rlimit(100)]
proof fn lemma_lookup_int32(x: PartialObjectView)
    ensures
        jlookup(reencoded_entries(x), "int32"@) == (if x.int32 is Some { Some(JsonView::Int(x.int32->0 as i64)) } else { None }),
{
    reveal_strlit("any");
    reveal_strlit("string");
    reveal_strlit("boolean");
    reveal_strlit("int8");
    reveal_strlit("uint8");
    reveal_strlit("int16");
    reveal_strlit("uint16");
    reveal_strlit("int32");
    reveal_strlit("uint32");
    reveal_strlit("int64");
    reveal_strlit("uint64");
    reveal_strlit("timestamp");
    reveal_strlit("enum");
    reveal_strlit("stringArray");
    assert("any"@ != "int32"@) by { assert("any"@.len() == 3 && "int32"@.len() == 5); }
    assert("string"@ != "int32"@) by { assert("string"@.len() == 6 && "int32"@.len() == 5); }
    assert("boolean"@ != "int32"@) by { assert("boolean"@.len() == 7 && "int32"@.len() == 5); }
    assert("int8"@ != "int32"@) by { assert("int8"@.len() == 4 && "int32"@.len() == 5); }
    assert("uint8"@ != "int32"@) by { assert("uint8"@[0] != "int32"@[0]); }
    assert("int16"@ != "int32"@) by { assert("int16"@[3] != "int32"@[3]); }
    assert("uint16"@ != "int32"@) by { assert("uint16"@.len() == 6 && "int32"@.len() == 5); }
    assert("uint32"@ != "int32"@) by { assert("uint32"@.len() == 6 && "int32"@.len() == 5); }
    assert("int64"@ != "int32"@) by { assert("int64"@[3] != "int32"@[3]); }
    assert("uint64"@ != "int32"@) by { assert("uint64"@.len() == 6 && "int32"@.len() == 5); }
    assert("timestamp"@ != "int32"@) by { assert("timestamp"@.len() == 9 && "int32"@.len() == 5); }
    assert("enum"@ != "int32"@) by { assert("enum"@.len() == 4 && "int32"@.len() == 5); }
    assert("stringArray"@ != "int32"@) by { assert("stringArray"@.len() == 11 && "int32"@.len() == 5); }
    let s1 = opt_entry(x.any is Some, "any"@, x.any->0);
    let s2 = opt_entry(x.string is Some, "string"@, JsonView::Str(x.string->0));
    let s3 = opt_entry(x.boolean is Some, "boolean"@, JsonView::Bool(x.boolean->0));
    let s4 = opt_entry(x.int8 is Some, "int8"@, JsonView::Int(x.int8->0 as i64));
    let s5 = opt_entry(x.uint8 is Some, "uint8"@, JsonView::Int(x.uint8->0 as i64));
    let s6 = opt_entry(x.int16 is Some, "int16"@, JsonView::Int(x.int16->0 as i64));
    let s7 = opt_entry(x.uint16 is Some, "uint16"@, JsonView::Int(x.uint16->0 as i64));
    let s8 = opt_entry(x.int32 is Some, "int32"@, JsonView::Int(x.int32->0 as i64));
    let s9 = opt_entry(x.uint32 is Some, "uint32"@, JsonView::Int(x.uint32->0 as i64));
    let s10 = opt_entry(x.int64 is Some, "int64"@, JsonView::Str(int_text(x.int64->0 as int)));
    let s11 = opt_entry(x.uint64 is Some, "uint64"@, JsonView::Str(int_text(x.uint64->0 as int)));
    let s12 = opt_entry(x.timestamp is Some, "timestamp"@, JsonView::Str(x.timestamp->0));
    let s13 = opt_entry(x.enumeration is Some, "enum"@, JsonView::Str(enum_tag(x.enumeration->0)));
    let s14 = opt_entry(x.string_array is Some, "stringArray"@, JsonView::Arr(Seq::new(x.string_array->0.len(), |i: int| JsonView::Str(x.string_array->0[i]))));
    lemma_jlookup_opt_entry(x.any is Some, "any"@, x.any->0, "int32"@);
    lemma_jlookup_opt_entry(x.string is Some, "string"@, JsonView::Str(x.string->0), "int32"@);
    lemma_jlookup_opt_entry(x.boolean is Some, "boolean"@, JsonView::Bool(x.boolean->0), "int32"@);
    lemma_jlookup_opt_entry(x.int8 is Some, "int8"@, JsonView::Int(x.int8->0 as i64), "int32"@);
    lemma_jlookup_opt_entry(x.uint8 is Some, "uint8"@, JsonView::Int(x.uint8->0 as i64), "int32"@);
    lemma_jlookup_opt_entry(x.int16 is Some, "int16"@, JsonView::Int(x.int16->0 as i64), "int32"@);
    lemma_jlookup_opt_entry(x.uint16 is Some, "uint16"@, JsonView::Int(x.uint16->0 as i64), "int32"@);
    lemma_jlookup_opt_entry(x.int32 is Some, "int32"@, JsonView::Int(x.int32->0 as i64), "int32"@);
    lemma_jlookup_opt_entry(x.uint32 is Some, "uint32"@, JsonView::Int(x.uint32->0 as i64), "int32"@);
    lemma_jlookup_opt_entry(x.int64 is Some, "int64"@, JsonView::Str(int_text(x.int64->0 as int)), "int32"@);
    lemma_jlookup_opt_entry(x.uint64 is Some, "uint64"@, JsonView::Str(int_text(x.uint64->0 as int)), "int32"@);
    lemma_jlookup_opt_entry(x.timestamp is Some, "timestamp"@, JsonView::Str(x.timestamp->0), "int32"@);
    lemma_jlookup_opt_entry(x.enumeration is Some, "enum"@, JsonView::Str(enum_tag(x.enumeration->0)), "int32"@);
    lemma_jlookup_opt_entry(x.string_array is Some, "stringArray"@, JsonView::Arr(Seq::new(x.string_array->0.len(), |i: int| JsonView::Str(x.string_array->0[i]))), "int32"@);
    let l2 = s1 + s2;
    let l3 = l2 + s3;
    let l4 = l3 + s4;
    let l5 = l4 + s5;
    let l6 = l5 + s6;
    let l7 = l6 + s7;
    let l8 = l7 + s8;
    let l9 = l8 + s9;
    let l10 = l9 + s10;
    let l11 = l10 + s11;
    let l12 = l11 + s12;
    let l13 = l12 + s13;
    let l14 = l13 + s14;
    lemma_jlookup_concat(s1, s2, "int32"@);
    lemma_jlookup_concat(l2, s3, "int32"@);
    lemma_jlookup_concat(l3, s4, "int32"@);
    lemma_jlookup_concat(l4, s5, "int32"@);
    lemma_jlookup_concat(l5, s6, "int32"@);
    lemma_jlookup_concat(l6, s7, "int32"@);
    lemma_jlookup_concat(l7, s8, "int32"@);
    lemma_jlookup_concat(l8, s9, "int32"@);
    lemma_jlookup_concat(l9, s10, "int32"@);
    lemma_jlookup_concat(l10, s11, "int32"@);
    lemma_jlookup_concat(l11, s12, "int32"@);
    lemma_jlookup_concat(l12, s13, "int32"@);
    lemma_jlookup_concat(l13, s14, "int32"@);
    assert(reencoded_entries(x) == l14);
}

/// What the wire key `uint32` finds in the object that a record's
/// encoding denotes.
#[verifier::rlimit(100)]
proof fn lemma_lookup_uint32(x: PartialObjectView)
    ensures
        jlookup(reencoded_entries(x), "uint32"@) == (if x.uint32 is Some { Some(JsonView::Int(x.uint32->0 as i64)) } else { None }),
{
    reveal_strlit("any");
    reveal_strlit("string");
    reveal_strlit("boolean");
    reveal_strlit("int8");
    reveal_strlit("uint8");
    reveal_strlit("int16");
    reveal_strlit("uint16");
    reveal_strlit("int32");
    reveal_strlit("uint32");
    reveal_strlit("int64");
    reveal_strlit("uint64");
    reveal_strlit("timestamp");
    reveal_strlit("enum");
    reveal_strlit("stringArray");
    assert("any"@ != "uint32"@) by { assert("any"@.len() == 3 && "uint32"@.len() == 6); }
    assert("string"@ != "uint32"@) by { assert("string"@[0] != "uint32"@[0]); }
    assert("boolean"@ != "uint32"@) by { assert("boolean"@.len() == 7 && "uint32"@.len() == 6); }
    assert("int8"@ != "uint32"@) by { assert("int8"@.len() == 4 && "uint32"@.len() == 6); }
    assert("uint8"@ != "uint32"@) by { assert("uint8"@.len() == 5 && "uint32"@.len() == 6); }
    assert("int16"@ != "uint32"@) by { assert("int16"@.len() == 5 && "uint32"@.len() == 6); }
    assert("uint16"@ != "uint32"@) by { assert("uint16"@[4] != "uint32"@[4]); }
    assert("int32"@ != "uint32"@) by { assert("int32"@.len() == 5 && "uint32"@.len() == 6); }
    assert("int64"@ != "uint32"@) by { assert("int64"@.len() == 5 && "uint32"@.len() == 6); }
    assert("uint64"@ != "uint32"@) by { assert("uint64"@[4] != "uint32"@[4]); }
    assert("timestamp"@ != "uint32"@) by { assert("timestamp"@.len() == 9 && "uint32"@.len() == 6); }
    assert("enum"@ != "uint32"@) by { assert("enum"@.len() == 4 && "uint32"@.len() == 6); }
    assert("stringArray"@ != "uint32"@) by { assert("stringArray"@.len() == 11 && "uint32"@.len() == 6); }
    let s1 = opt_entry(x.any is Some, "any"@, x.any->0);
    let s2 = opt_entry(x.string is Some, "string"@, JsonView::Str(x.string->0));
    let s3 = opt_entry(x.boolean is Some, "boolean"@, JsonView::Bool(x.boolean->0));
    let s4 = opt_entry(x.int8 is Some, "int8"@, JsonView::Int(x.int8->0 as i64));
    let s5 = opt_entry(x.uint8 is Some, "uint8"@, JsonView::Int(x.uint8->0 as i64));
    let s6 = opt_entry(x.int16 is Some, "int16"@, JsonView::Int(x.int16->0 as i64));
    let s7 = opt_entry(x.uint16 is Some, "uint16"@, JsonView::Int(x.uint16->0 as i64));
    let s8 = opt_entry(x.int32 is Some, "int32"@, JsonView::Int(x.int32->0 as i64));
    let s9 = opt_entry(x.uint32 is Some, "uint32"@, JsonView::Int(x.uint32->0 as i64));
    let s10 = opt_entry(x.int64 is Some, "int64"@, JsonView::Str(int_text(x.int64->0 as int)));
    let s11 = opt_entry(x.uint64 is Some, "uint64"@, JsonView::Str(int_text(x.uint64->0 as int)));
    let s12 = opt_entry(x.timestamp is Some, "timestamp"@, JsonView::Str(x.timestamp->0));
    let s13 = opt_entry(x.enumeration is Some, "enum"@, JsonView::Str(enum_tag(x.enumeration->0)));
    let s14 = opt_entry(x.string_array is Some, "stringArray"@, JsonView::Arr(Seq::new(x.string_array->0.len(), |i: int| JsonView::Str(x.string_array->0[i]))));
    lemma_jlookup_opt_entry(x.any is Some, "any"@, x.any->0, "uint32"@);
    lemma_jlookup_opt_entry(x.string is Some, "string"@, JsonView::Str(x.string->0), "uint32"@);
    lemma_jlookup_opt_entry(x.boolean is Some, "boolean"@, JsonView::Bool(x.boolean->0), "uint32"@);
    lemma_jlookup_opt_entry(x.int8 is Some, "int8"@, JsonView::Int(x.int8->0 as i64), "uint32"@);
    lemma_jlookup_opt_entry(x.uint8 is Some, "uint8"@, JsonView::Int(x.uint8->0 as i64), "uint32"@);
    lemma_jlookup_opt_entry(x.int16 is Some, "int16"@, JsonView::Int(x.int16->0 as i64), "uint32"@);
    lemma_jlookup_opt_entry(x.uint16 is Some, "uint16"@, JsonView::Int(x.uint16->0 as i64), "uint32"@);
    lemma_jlookup_opt_entry(x.int32 is Some, "int32"@, JsonView::Int(x.int32->0 as i64), "uint32"@);
    lemma_jlookup_opt_entry(x.uint32 is Some, "uint32"@, JsonView::Int(x.uint32->0 as i64), "uint32"@);
    lemma_jlookup_opt_entry(x.int64 is Some, "int64"@, JsonView::Str(int_text(x.int64->0 as int)), "uint32"@);
    lemma_jlookup_opt_entry(x.uint64 is Some, "uint64"@, JsonView::Str(int_text(x.uint64->0 as int)), "uint32"@);
    lemma_jlookup_opt_entry(x.timestamp is Some, "timestamp"@, JsonView::Str(x.timestamp->0), "uint32"@);
    lemma_jlookup_opt_entry(x.enumeration is Some, "enum"@, JsonView::Str(enum_tag(x.enumeration->0)), "uint32"@);
    lemma_jlookup_opt_entry(x.string_array is Some, "stringArray"@, JsonView::Arr(Seq::new(x.string_array->0.len(), |i: int| JsonView::Str(x.string_array->0[i]))), "uint32"@);
    let l2 = s1 + s2;
    let l3 = l2 + s3;
    let l4 = l3 + s4;
    let l5 = l4 + s5;
    let l6 = l5 + s6;
    let l7 = l6 + s7;
    let l8 = l7 + s8;
    let l9 = l8 + s9;
    let l10 = l9 + s10;
    let l11 = l10 + s11;
    let l12 = l11 + s12;
    let l13 = l12 + s13;
    let l14 = l13 + s14;
    lemma_jlookup_concat(s1, s2, "uint32"@);
    lemma_jlookup_concat(l2, s3, "uint32"@);
    lemma_jlookup_concat(l3, s4, "uint32"@);
    lemma_jlookup_concat(l4, s5, "uint32"@);
    lemma_jlookup_concat(l5, s6, "uint32"@);
    lemma_jlookup_concat(l6, s7, "uint32"@);
    lemma_jlookup_concat(l7, s8, "uint32"@);
    lemma_jlookup_concat(l8, s9, "uint32"@);
    lemma_jlookup_concat(l9, s10, "uint32"@);
    lemma_jlookup_concat(l10, s11, "uint32"@);
    lemma_jlookup_concat(l11, s12, "uint32"@);
    lemma_jlookup_concat(l12, s13, "uint32"@);
    lemma_jlookup_concat(l13, s14, "uint32"@);
    assert(reencoded_entries(x) == l14);
}

/// What the wire key `int64` finds in the object that a record's
/// encoding denotes.
#[verifier::rlimit(100)]
proof fn lemma_lookup_int64(x: PartialObjectView)
    ensures
        jlookup(reencoded_entries(x), "int64"@) == (if x.int64 is Some { Some(JsonView::Str(int_text(x.int64->0 as int))) } else { None }),
{
    reveal_strlit("any");
    reveal_strlit("string");
    reveal_strlit("boolean");
    reveal_strlit("int8");
    reveal_strlit("uint8");
    reveal_strlit("int16");
    reveal_strlit("uint16");
    reveal_strlit("int32");
    reveal_strlit("uint32");
    reveal_strlit("int64");
    reveal_strlit("uint64");
    reveal_strlit("timestamp");
    reveal_strlit("enum");
    reveal_strlit("stringArray");
    assert("any"@ != "int64"@) by { assert("any"@.len() == 3 && "int64"@.len() == 5); }
    assert("string"@ != "int64"@) by { assert("string"@.len() == 6 && "int64"@.len() == 5); }
    assert("boolean"@ != "int64"@) by { assert("boolean"@.len() == 7 && "int64"@.len() == 5); }
    assert("int8"@ != "int64"@) by { assert("int8"@.len() == 4 && "int64"@.len() == 5); }
    assert("uint8"@ != "int64"@) by { assert("uint8"@[0] != "int64"@[0]); }
    assert("int16"@ != "int64"@) by { assert("int16"@[3] != "int64"@[3]); }
    assert("uint16"@ != "int64"@) by { assert("uint16"@.len() == 6 && "int64"@.len() == 5); }
    assert("int32"@ != "int64"@) by { assert("int32"@[3] != "int64"@[3]); }
    assert("uint32"@ != "int64"@) by { assert("uint32"@.len() == 6 && "int64"@.len() == 5); }
    assert("uint64"@ != "int64"@) by { assert("uint64"@.len() == 6 && "int64"@.len() == 5); }
    assert("timestamp"@ != "int64"@) by { assert("timestamp"@.len() == 9 && "int64"@.len() == 5); }
    assert("enum"@ != "int64"@) by { assert("enum"@.len() == 4 && "int64"@.len() == 5); }
    assert("stringArray"@ != "int64"@) by { assert("stringArray"@.len() == 11 && "int64"@.len() == 5); }
    let s1 = opt_entry(x.any is Some, "any"@, x.any->0);
    let s2 = opt_entry(x.string is Some, "string"@, JsonView::Str(x.string->0));
    let s3 = opt_entry(x.boolean is Some, "boolean"@, JsonView::Bool(x.boolean->0));
    let s4 = opt_entry(x.int8 is Some, "int8"@, JsonView::Int(x.int8->0 as i64));
    let s5 = opt_entry(x.uint8 is Some, "uint8"@, JsonView::Int(x.uint8->0 as i64));
    let s6 = opt_entry(x.int16 is Some, "int16"@, JsonView::Int(x.int16->0 as i64));
    let s7 = opt_entry(x.uint16 is Some, "uint16"@, JsonView::Int(x.uint16->0 as i64));
    let s8 = opt_entry(x.int32 is Some, "int32"@, JsonView::Int(x.int32->0 as i64));
    let s9 = opt_entry(x.uint32 is Some, "uint32"@, JsonView::Int(x.uint32->0 as i64));
    let s10 = opt_entry(x.int64 is Some, "int64"@, JsonView::Str(int_text(x.int64->0 as int)));
    let s11 = opt_entry(x.uint64 is Some, "uint64"@, JsonView::Str(int_text(x.uint64->0 as int)));
    let s12 = opt_entry(x.timestamp is Some, "timestamp"@, JsonView::Str(x.timestamp->0));
    let s13 = opt_entry(x.enumeration is Some, "enum"@, JsonView::Str(enum_tag(x.enumeration->0)));
    let s14 = opt_entry(x.string_array is Some, "stringArray"@, JsonView::Arr(Seq::new(x.string_array->0.len(), |i: int| JsonView::Str(x.string_array->0[i]))));
    lemma_jlookup_opt_entry(x.any is Some, "any"@, x.any->0, "int64"@);
    lemma_jlookup_opt_entry(x.string is Some, "string"@, JsonView::Str(x.string->0), "int64"@);
    lemma_jlookup_opt_entry(x.boolean is Some, "boolean"@, JsonView::Bool(x.boolean->0), "int64"@);
    lemma_jlookup_opt_entry(x.int8 is Some, "int8"@, JsonView::Int(x.int8->0 as i64), "int64"@);
    lemma_jlookup_opt_entry(x.uint8 is Some, "uint8"@, JsonView::Int(x.uint8->0 as i64), "int64"@);
    lemma_jlookup_opt_entry(x.int16 is Some, "int16"@, JsonView::Int(x.int16->0 as i64), "int64"@);
    lemma_jlookup_opt_entry(x.uint16 is Some, "uint16"@, JsonView::Int(x.uint16->0 as i64), "int64"@);
    lemma_jlookup_opt_entry(x.int32 is Some, "int32"@, JsonView::Int(x.int32->0 as i64), "int64"@);
    lemma_jlookup_opt_entry(x.uint32 is Some, "uint32"@, JsonView::Int(x.uint32->0 as i64), "int64"@);
    lemma_jlookup_opt_entry(x.int64 is Some, "int64"@, JsonView::Str(int_text(x.int64->0 as int)), "int64"@);
    lemma_jlookup_opt_entry(x.uint64 is Some, "uint64"@, JsonView::Str(int_text(x.uint64->0 as int)), "int64"@);
    lemma_jlookup_opt_entry(x.timestamp is Some, "timestamp"@, JsonView::Str(x.timestamp->0), "int64"@);
    lemma_jlookup_opt_entry(x.enumeration is Some, "enum"@, JsonView::Str(enum_tag(x.enumeration->0)), "int64"@);
    lemma_jlookup_opt_entry(x.string_array is Some, "stringArray"@, JsonView::Arr(Seq::new(x.string_array->0.len(), |i: int| JsonView::Str(x.string_array->0[i]))), "int64"@);
    let l2 = s1 + s2;
    let l3 = l2 + s3;
    let l4 = l3 + s4;
    let l5 = l4 + s5;
    let l6 = l5 + s6;
    let l7 = l6 + s7;
    let l8 = l7 + s8;
    let l9 = l8 + s9;
    let l10 = l9 + s10;
    let l11 = l10 + s11;
    let l12 = l11 + s12;
    let l13 = l12 + s13;
    let l14 = l13 + s14;
    lemma_jlookup_concat(s1, s2, "int64"@);
    lemma_jlookup_concat(l2, s3, "int64"@);
    lemma_jlookup_concat(l3, s4, "int64"@);
    lemma_jlookup_concat(l4, s5, "int64"@);
    lemma_jlookup_concat(l5, s6, "int64"@);
    lemma_jlookup_concat(l6, s7, "int64"@);
    lemma_jlookup_concat(l7, s8, "int64"@);
    lemma_jlookup_concat(l8, s9, "int64"@);
    lemma_jlookup_concat(l9, s10, "int64"@);
    lemma_jlookup_concat(l10, s11, "int64"@);
    lemma_jlookup_concat(l11, s12, "int64"@);
    lemma_jlookup_concat(l12, s13, "int64"@);
    lemma_jlookup_concat(l13, s14, "int64"@);
    assert(reencoded_entries(x) == l14);
}

/// What the wire key `uint64` finds in the object that a record's
/// encoding denotes.
#[verifier::rlimit(100)]
proof fn lemma_lookup_uint64(x: PartialObjectView)
    ensures
        jlookup(reencoded_entries(x), "uint64"@) == (if x.uint64 is Some { Some(JsonView::Str(int_text(x.uint64->0 as int))) } else { None }),
{
    reveal_strlit("any");
    reveal_strlit("string");
    reveal_strlit("boolean");
    reveal_strlit("int8");
    reveal_strlit("uint8");
    reveal_strlit("int16");
    reveal_strlit("uint16");
    reveal_strlit("int32");
    reveal_strlit("uint32");
    reveal_strlit("int64");
    reveal_strlit("uint64");
    reveal_strlit("timestamp");
    reveal_strlit("enum");
    reveal_strlit("stringArray");
    assert("any"@ != "uint64"@) by { assert("any"@.len() == 3 && "uint64"@.len() == 6); }
    assert("string"@ != "uint64"@) by { assert("string"@[0] != "uint64"@[0]); }
    assert("boolean"@ != "uint64"@) by { assert("boolean"@.len() == 7 && "uint64"@.len() == 6); }
    assert("int8"@ != "uint64"@) by { assert("int8"@.len() == 4 && "uint64"@.len() == 6); }
    assert("uint8"@ != "uint64"@) by { assert("uint8"@.len() == 5 && "uint64"@.len() == 6); }
    assert("int16"@ != "uint64"@) by { assert("int16"@.len() == 5 && "uint64"@.len() == 6); }
    assert("uint16"@ != "uint64"@) by { assert("uint16"@[4] != "uint64"@[4]); }
    assert("int32"@ != "uint64"@) by { assert("int32"@.len() == 5 && "uint64"@.len() == 6); }
    assert("uint32"@ != "uint64"@) by { assert("uint32"@[4] != "uint64"@[4]); }
    assert("int64"@ != "uint64"@) by { assert("int64"@.len() == 5 && "uint64"@.len() == 6); }
    assert("timestamp"@ != "uint64"@) by { assert("timestamp"@.len() == 9 && "uint64"@.len() == 6); }
    assert("enum"@ != "uint64"@) by { assert("enum"@.len() == 4 && "uint64"@.len() == 6); }
    assert("stringArray"@ != "uint64"@) by { assert("stringArray"@.len() == 11 && "uint64"@.len() == 6); }
    let s1 = opt_entry(x.any is Some, "any"@, x.any->0);
    let s2 = opt_entry(x.string is Some, "string"@, JsonView::Str(x.string->0));
    let s3 = opt_entry(x.boolean is Some, "boolean"@, JsonView::Bool(x.boolean->0));
    let s4 = opt_entry(x.int8 is Some, "int8"@, JsonView::Int(x.int8->0 as i64));
    let s5 = opt_entry(x.uint8 is Some, "uint8"@, JsonView::Int(x.uint8->0 as i64));
    let s6 = opt_entry(x.int16 is Some, "int16"@, JsonView::Int(x.int16->0 as i64));
    let s7 = opt_entry(x.uint16 is Some, "uint16"@, JsonView::Int(x.uint16->0 as i64));
    let s8 = opt_entry(x.int32 is Some, "int32"@, JsonView::Int(x.int32->0 as i64));
    let s9 = opt_entry(x.uint32 is Some, "uint32"@, JsonView::Int(x.uint32->0 as i64));
    let s10 = opt_entry(x.int64 is Some, "int64"@, JsonView::Str(int_text(x.int64->0 as int)));
    let s11 = opt_entry(x.uint64 is Some, "uint64"@, JsonView::Str(int_text(x.uint64->0 as int)));
    let s12 = opt_entry(x.timestamp is Some, "timestamp"@, JsonView::Str(x.timestamp->0));
    let s13 = opt_entry(x.enumeration is Some, "enum"@, JsonView::Str(enum_tag(x.enumeration->0)));
    let s14 = opt_entry(x.string_array is Some, "stringArray"@, JsonView::Arr(Seq::new(x.string_array->0.len(), |i: int| JsonView::Str(x.string_array->0[i]))));
    lemma_jlookup_opt_entry(x.any is Some, "any"@, x.any->0, "uint64"@);
    lemma_jlookup_opt_entry(x.string is Some, "string"@, JsonView::Str(x.string->0), "uint64"@);
    lemma_jlookup_opt_entry(x.boolean is Some, "boolean"@, JsonView::Bool(x.boolean->0), "uint64"@);
    lemma_jlookup_opt_entry(x.int8 is Some, "int8"@, JsonView::Int(x.int8->0 as i64), "uint64"@);
    lemma_jlookup_opt_entry(x.uint8 is Some, "uint8"@, JsonView::Int(x.uint8->0 as i64), "uint64"@);
    lemma_jlookup_opt_entry(x.int16 is Some, "int16"@, JsonView::Int(x.int16->0 as i64), "uint64"@);
    lemma_jlookup_opt_entry(x.uint16 is Some, "uint16"@, JsonView::Int(x.uint16->0 as i64), "uint64"@);
    lemma_jlookup_opt_entry(x.int32 is Some, "int32"@, JsonView::Int(x.int32->0 as i64), "uint64"@);
    lemma_jlookup_opt_entry(x.uint32 is Some, "uint32"@, JsonView::Int(x.uint32->0 as i64), "uint64"@);
    lemma_jlookup_opt_entry(x.int64 is Some, "int64"@, JsonView::Str(int_text(x.int64->0 as int)), "uint64"@);
    lemma_jlookup_opt_entry(x.uint64 is Some, "uint64"@, JsonView::Str(int_text(x.uint64->0 as int)), "uint64"@);
    lemma_jlookup_opt_entry(x.timestamp is Some, "timestamp"@, JsonView::Str(x.timestamp->0), "uint64"@);
    lemma_jlookup_opt_entry(x.enumeration is Some, "enum"@, JsonView::Str(enum_tag(x.enumeration->0)), "uint64"@);
    lemma_jlookup_opt_entry(x.string_array is Some, "stringArray"@, JsonView::Arr(Seq::new(x.string_array->0.len(), |i: int| JsonView::Str(x.string_array->0[i]))), "uint64"@);
    let l2 = s1 + s2;
    let l3 = l2 + s3;
    let l4 = l3 + s4;
    let l5 = l4 + s5;
    let l6 = l5 + s6;
    let l7 = l6 + s7;
    let l8 = l7 + s8;
    let l9 = l8 + s9;
    let l10 = l9 + s10;
    let l11 = l10 + s11;
    let l12 = l11 + s12;
    let l13 = l12 + s13;
    let l14 = l13 + s14;
    lemma_jlookup_concat(s1, s2, "uint64"@);
    lemma_jlookup_concat(l2, s3, "uint64"@);
    lemma_jlookup_concat(l3, s4, "uint64"@);
    lemma_jlookup_concat(l4, s5, "uint64"@);
    lemma_jlookup_concat(l5, s6, "uint64"@);
    lemma_jlookup_concat(l6, s7, "uint64"@);
    lemma_jlookup_concat(l7, s8, "uint64"@);
    lemma_jlookup_concat(l8, s9, "uint64"@);
    lemma_jlookup_concat(l9, s10, "uint64"@);
    lemma_jlookup_concat(l10, s11, "uint64"@);
    lemma_jlookup_concat(l11, s12, "uint64"@);
    lemma_jlookup_concat(l12, s13, "uint64"@);
    lemma_jlookup_concat(l13, s14, "uint64"@);
    assert(reencoded_entries(x) == l14);
}

/// What the wire key `timestamp` finds in the object that a record's
/// encoding denotes.
#[verifier::rlimit(100)]
proof fn lemma_lookup_timestamp(x: PartialObjectView)
    ensures
        jlookup(reencoded_entries(x), "timestamp"@) == (if x.timestamp is Some { Some(JsonView::Str(x.timestamp->0)) } else { None }),
{
    reveal_strlit("any");
    reveal_strlit("string");
    reveal_strlit("boolean");
    reveal_strlit("int8");
    reveal_strlit("uint8");
    reveal_strlit("int16");
    reveal_strlit("uint16");
    reveal_strlit("int32");
    reveal_strlit("uint32");
    reveal_strlit("int64");
    reveal_strlit("uint64");
    reveal_strlit("timestamp");
    reveal_strlit("enum");
    reveal_strlit("stringArray");
    assert("any"@ != "timestamp"@) by { assert("any"@.len() == 3 && "timestamp"@.len() == 9); }
    assert("string"@ != "timestamp"@) by { assert("string"@.len() == 6 && "timestamp"@.len() == 9); }
    assert("boolean"@ != "timestamp"@) by { assert("boolean"@.len() == 7 && "timestamp"@.len() == 9); }
    assert("int8"@ != "timestamp"@) by { assert("int8"@.len() == 4 && "timestamp"@.len() == 9); }
    assert("uint8"@ != "timestamp"@) by { assert("uint8"@.len() == 5 && "timestamp"@.len() == 9); }
    assert("int16"@ != "timestamp"@) by { assert("int16"@.len() == 5 && "timestamp"@.len() == 9); }
    assert("uint16"@ != "timestamp"@) by { assert("uint16"@.len() == 6 && "timestamp"@.len() == 9); }
    assert("int32"@ != "timestamp"@) by { assert("int32"@.len() == 5 && "timestamp"@.len() == 9); }
    assert("uint32"@ != "timestamp"@) by { assert("uint32"@.len() == 6 && "timestamp"@.len() == 9); }
    assert("int64"@ != "timestamp"@) by { assert("int64"@.len() == 5 && "timestamp"@.len() == 9); }
    assert("uint64"@ != "timestamp"@) by { assert("uint64"@.len() == 6 && "timestamp"@.len() == 9); }
    assert("enum"@ != "timestamp"@) by { assert("enum"@.len() == 4 && "timestamp"@.len() == 9); }
    assert("stringArray"@ != "timestamp"@) by { assert("stringArray"@.len() == 11 && "timestamp"@.len() == 9); }
    let s1 = opt_entry(x.any is Some, "any"@, x.any->0);
    let s2 = opt_entry(x.string is Some, "string"@, JsonView::Str(x.string->0));
    let s3 = opt_entry(x.boolean is Some, "boolean"@, JsonView::Bool(x.boolean->0));
    let s4 = opt_entry(x.int8 is Some, "int8"@, JsonView::Int(x.int8->0 as i64));
    let s5 = opt_entry(x.uint8 is Some, "uint8"@, JsonView::Int(x.uint8->0 as i64));
    let s6 = opt_entry(x.int16 is Some, "int16"@, JsonView::Int(x.int16->0 as i64));
    let s7 = opt_entry(x.uint16 is Some, "uint16"@, JsonView::Int(x.uint16->0 as i64));
    let s8 = opt_entry(x.int32 is Some, "int32"@, JsonView::Int(x.int32->0 as i64));
    let s9 = opt_entry(x.uint32 is Some, "uint32"@, JsonView::Int(x.uint32->0 as i64));
    let s10 = opt_entry(x.int64 is Some, "int64"@, JsonView::Str(int_text(x.int64->0 as int)));
    let s11 = opt_entry(x.uint64 is Some, "uint64"@, JsonView::Str(int_text(x.uint64->0 as int)));
    let s12 = opt_entry(x.timestamp is Some, "timestamp"@, JsonView::Str(x.timestamp->0));
    let s13 = opt_entry(x.enumeration is Some, "enum"@, JsonView::Str(enum_tag(x.enumeration->0)));
    let s14 = opt_entry(x.string_array is Some, "stringArray"@, JsonView::Arr(Seq::new(x.string_array->0.len(), |i: int| JsonView::Str(x.string_array->0[i]))));
    lemma_jlookup_opt_entry(x.any is Some, "any"@, x.any->0, "timestamp"@);
    lemma_jlookup_opt_entry(x.string is Some, "string"@, JsonView::Str(x.string->0), "timestamp"@);
    lemma_jlookup_opt_entry(x.boolean is Some, "boolean"@, JsonView::Bool(x.boolean->0), "timestamp"@);
    lemma_jlookup_opt_entry(x.int8 is Some, "int8"@, JsonView::Int(x.int8->0 as i64), "timestamp"@);
    lemma_jlookup_opt_entry(x.uint8 is Some, "uint8"@, JsonView::Int(x.uint8->0 as i64), "timestamp"@);
    lemma_jlookup_opt_entry(x.int16 is Some, "int16"@, JsonView::Int(x.int16->0 as i64), "timestamp"@);
    lemma_jlookup_opt_entry(x.uint16 is Some, "uint16"@, JsonView::Int(x.uint16->0 as i64), "timestamp"@);
    lemma_jlookup_opt_entry(x.int32 is Some, "int32"@, JsonView::Int(x.int32->0 as i64), "timestamp"@);
    lemma_jlookup_opt_entry(x.uint32 is Some, "uint32"@, JsonView::Int(x.uint32->0 as i64), "timestamp"@);
    lemma_jlookup_opt_entry(x.int64 is Some, "int64"@, JsonView::Str(int_text(x.int64->0 as int)), "timestamp"@);
    lemma_jlookup_opt_entry(x.uint64 is Some, "uint64"@, JsonView::Str(int_text(x.uint64->0 as int)), "timestamp"@);
    lemma_jlookup_opt_entry(x.timestamp is Some, "timestamp"@, JsonView::Str(x.timestamp->0), "timestamp"@);
    lemma_jlookup_opt_entry(x.enumeration is Some, "enum"@, JsonView::Str(enum_tag(x.enumeration->0)), "timestamp"@);
    lemma_jlookup_opt_entry(x.string_array is Some, "stringArray"@, JsonView::Arr(Seq::new(x.string_array->0.len(), |i: int| JsonView::Str(x.string_array->0[i]))), "timestamp"@);
    let l2 = s1 + s2;
    let l3 = l2 + s3;
    let l4 = l3 + s4;
    let l5 = l4 + s5;
    let l6 = l5 + s6;
    let l7 = l6 + s7;
    let l8 = l7 + s8;
    let l9 = l8 + s9;
    let l10 = l9 + s10;
    let l11 = l10 + s11;
    let l12 = l11 + s12;
    let l13 = l12 + s13;
    let l14 = l13 + s14;
    lemma_jlookup_concat(s1, s2, "timestamp"@);
    lemma_jlookup_concat(l2, s3, "timestamp"@);
    lemma_jlookup_concat(l3, s4, "timestamp"@);
    lemma_jlookup_concat(l4, s5, "timestamp"@);
    lemma_jlookup_concat(l5, s6, "timestamp"@);
    lemma_jlookup_concat(l6, s7, "timestamp"@);
    lemma_jlookup_concat(l7, s8, "timestamp"@);
    lemma_jlookup_concat(l8, s9, "timestamp"@);
    lemma_jlookup_concat(l9, s10, "timestamp"@);
    lemma_jlookup_concat(l10, s11, "timestamp"@);
    lemma_jlookup_concat(l11, s12, "timestamp"@);
    lemma_jlookup_concat(l12, s13, "timestamp"@);
    lemma_jlookup_concat(l13, s14, "timestamp"@);
    assert(reencoded_entries(x) == l14);
}

/// What the wire key `enum` finds in the object that a record's
/// encoding denotes.
#[verifier::rlimit(100)]
proof fn lemma_lookup_enumeration(x: PartialObjectView)
    ensures
        jlookup(reencoded_entries(x), "enum"@) == (if x.enumeration is Some { Some(JsonView::Str(enum_tag(x.enumeration->0))) } else { None }),
{
    reveal_strlit("any");
    reveal_strlit("string");
    reveal_strlit("boolean");
    reveal_strlit("int8");
    reveal_strlit("uint8");
    reveal_strlit("int16");
    reveal_strlit("uint16");
    reveal_strlit("int32");
    reveal_strlit("uint32");
    reveal_strlit("int64");
    reveal_strlit("uint64");
    reveal_strlit("timestamp");
    reveal_strlit("enum");
    reveal_strlit("stringArray");
    assert("any"@ != "enum"@) by { assert("any"@.len() == 3 && "enum"@.len() == 4); }
    assert("string"@ != "enum"@) by { assert("string"@.len() == 6 && "enum"@.len() == 4); }
    assert("boolean"@ != "enum"@) by { assert("boolean"@.len() == 7 && "enum"@.len() == 4); }
    assert("int8"@ != "enum"@) by { assert("int8"@[0] != "enum"@[0]); }
    assert("uint8"@ != "enum"@) by { assert("uint8"@.len() == 5 && "enum"@.len() == 4); }
    assert("int16"@ != "enum"@) by { assert("int16"@.len() == 5 && "enum"@.len() == 4); }
    assert("uint16"@ != "enum"@) by { assert("uint16"@.len() == 6 && "enum"@.len() == 4); }
    assert("int32"@ != "enum"@) by { assert("int32"@.len() == 5 && "enum"@.len() == 4); }
    assert("uint32"@ != "enum"@) by { assert("uint32"@.len() == 6 && "enum"@.len() == 4); }
    assert("int64"@ != "enum"@) by { assert("int64"@.len() == 5 && "enum"@.len() == 4); }
    assert("uint64"@ != "enum"@) by { assert("uint64"@.len() == 6 && "enum"@.len() == 4); }
    assert("timestamp"@ != "enum"@) by { assert("timestamp"@.len() == 9 && "enum"@.len() == 4); }
    assert("stringArray"@ != "enum"@) by { assert("stringArray"@.len() == 11 && "enum"@.len() == 4); }
    let s1 = opt_entry(x.any is Some, "any"@, x.any->0);
    let s2 = opt_entry(x.string is Some, "string"@, JsonView::Str(x.string->0));
    let s3 = opt_entry(x.boolean is Some, "boolean"@, JsonView::Bool(x.boolean->0));
    let s4 = opt_entry(x.int8 is Some, "int8"@, JsonView::Int(x.int8->0 as i64));
    let s5 = opt_entry(x.uint8 is Some, "uint8"@, JsonView::Int(x.uint8->0 as i64));
    let s6 = opt_entry(x.int16 is Some, "int16"@, JsonView::Int(x.int16->0 as i64));
    let s7 = opt_entry(x.uint16 is Some, "uint16"@, JsonView::Int(x.uint16->0 as i64));
    let s8 = opt_entry(x.int32 is Some, "int32"@, JsonView::Int(x.int32->0 as i64));
    let s9 = opt_entry(x.uint32 is Some, "uint32"@, JsonView::Int(x.uint32->0 as i64));
    let s10 = opt_entry(x.int64 is Some, "int64"@, JsonView::Str(int_text(x.int64->0 as int)));
    let s11 = opt_entry(x.uint64 is Some, "uint64"@, JsonView::Str(int_text(x.uint64->0 as int)));
    let s12 = opt_entry(x.timestamp is Some, "timestamp"@, JsonView::Str(x.timestamp->0));
    let s13 = opt_entry(x.enumeration is Some, "enum"@, JsonView::Str(enum_tag(x.enumeration->0)));
    let s14 = opt_entry(x.string_array is Some, "stringArray"@, JsonView::Arr(Seq::new(x.string_array->0.len(), |i: int| JsonView::Str(x.string_array->0[i]))));
    lemma_jlookup_opt_entry(x.any is Some, "any"@, x.any->0, "enum"@);
    lemma_jlookup_opt_entry(x.string is Some, "string"@, JsonView::Str(x.string->0), "enum"@);
    lemma_jlookup_opt_entry(x.boolean is Some, "boolean"@, JsonView::Bool(x.boolean->0), "enum"@);
    lemma_jlookup_opt_entry(x.int8 is Some, "int8"@, JsonView::Int(x.int8->0 as i64), "enum"@);
    lemma_jlookup_opt_entry(x.uint8 is Some, "uint8"@, JsonView::Int(x.uint8->0 as i64), "enum"@);
    lemma_jlookup_opt_entry(x.int16 is Some, "int16"@, JsonView::Int(x.int16->0 as i64), "enum"@);
    lemma_jlookup_opt_entry(x.uint16 is Some, "uint16"@, JsonView::Int(x.uint16->0 as i64), "enum"@);
    lemma_jlookup_opt_entry(x.int32 is Some, "int32"@, JsonView::Int(x.int32->0 as i64), "enum"@);
    lemma_jlookup_opt_entry(x.uint32 is Some, "uint32"@, JsonView::Int(x.uint32->0 as i64), "enum"@);
    lemma_jlookup_opt_entry(x.int64 is Some, "int64"@, JsonView::Str(int_text(x.int64->0 as int)), "enum"@);
    lemma_jlookup_opt_entry(x.uint64 is Some, "uint64"@, JsonView::Str(int_text(x.uint64->0 as int)), "enum"@);
    lemma_jlookup_opt_entry(x.timestamp is Some, "timestamp"@, JsonView::Str(x.timestamp->0), "enum"@);
    lemma_jlookup_opt_entry(x.enumeration is Some, "enum"@, JsonView::Str(enum_tag(x.enumeration->0)), "enum"@);
    lemma_jlookup_opt_entry(x.string_array is Some, "stringArray"@, JsonView::Arr(Seq::new(x.string_array->0.len(), |i: int| JsonView::Str(x.string_array->0[i]))), "enum"@);
    let l2 = s1 + s2;
    let l3 = l2 + s3;
    let l4 = l3 + s4;
    let l5 = l4 + s5;
    let l6 = l5 + s6;
    let l7 = l6 + s7;
    let l8 = l7 + s8;
    let l9 = l8 + s9;
    let l10 = l9 + s10;
    let l11 = l10 + s11;
    let l12 = l11 + s12;
    let l13 = l12 + s13;
    let l14 = l13 + s14;
    lemma_jlookup_concat(s1, s2, "enum"@);
    lemma_jlookup_concat(l2, s3, "enum"@);
    lemma_jlookup_concat(l3, s4, "enum"@);
    lemma_jlookup_concat(l4, s5, "enum"@);
    lemma_jlookup_concat(l5, s6, "enum"@);
    lemma_jlookup_concat(l6, s7, "enum"@);
    lemma_jlookup_concat(l7, s8, "enum"@);
    lemma_jlookup_concat(l8, s9, "enum"@);
    lemma_jlookup_concat(l9, s10, "enum"@);
    lemma_jlookup_concat(l10, s11, "enum"@);
    lemma_jlookup_concat(l11, s12, "enum"@);
    lemma_jlookup_concat(l12, s13, "enum"@);
    lemma_jlookup_concat(l13, s14, "enum"@);
    assert(reencoded_entries(x) == l14);
}

/// What the wire key `stringArray` finds in the object that a record's
/// encoding denotes.
#[verifier::rlimit(100)]
proof fn lemma_lookup_string_array(x: PartialObjectView)
    ensures
        jlookup(reencoded_entries(x), "stringArray"@) == (if x.string_array is Some { Some(JsonView::Arr(Seq::new(x.string_array->0.len(), |i: int| JsonView::Str(x.string_array->0[i])))) } else { None }),
{
    reveal_strlit("any");
    reveal_strlit("string");
    reveal_strlit("boolean");
    reveal_strlit("int8");
    reveal_strlit("uint8");
    reveal_strlit("int16");
    reveal_strlit("uint16");
    reveal_strlit("int32");
    reveal_strlit("uint32");
    reveal_strlit("int64");
    reveal_strlit("uint64");
    reveal_strlit("timestamp");
    reveal_strlit("enum");
    reveal_strlit("stringArray");
    assert("any"@ != "stringArray"@) by { assert("any"@.len() == 3 && "stringArray"@.len() == 11); }
    assert("string"@ != "stringArray"@) by { assert("string"@.len() == 6 && "stringArray"@.len() == 11); }
    assert("boolean"@ != "stringArray"@) by { assert("boolean"@.len() == 7 && "stringArray"@.len() == 11); }
    assert("int8"@ != "stringArray"@) by { assert("int8"@.len() == 4 && "stringArray"@.len() == 11); }
    assert("uint8"@ != "stringArray"@) by { assert("uint8"@.len() == 5 && "stringArray"@.len() == 11); }
    assert("int16"@ != "stringArray"@) by { assert("int16"@.len() == 5 && "stringArray"@.len() == 11); }
    assert("uint16"@ != "stringArray"@) by { assert("uint16"@.len() == 6 && "stringArray"@.len() == 11); }
    assert("int32"@ != "stringArray"@) by { assert("int32"@.len() == 5 && "stringArray"@.len() == 11); }
    assert("uint32"@ != "stringArray"@) by { assert("uint32"@.len() == 6 && "stringArray"@.len() == 11); }
    assert("int64"@ != "stringArray"@) by { assert("int64"@.len() == 5 && "stringArray"@.len() == 11); }
    assert("uint64"@ != "stringArray"@) by { assert("uint64"@.len() == 6 && "stringArray"@.len() == 11); }
    assert("timestamp"@ != "stringArray"@) by { assert("timestamp"@.len() == 9 && "stringArray"@.len() == 11); }
    assert("enum"@ != "stringArray"@) by { assert("enum"@.len() == 4 && "stringArray"@.len() == 11); }
    let s1 = opt_entry(x.any is Some, "any"@, x.any->0);
    let s2 = opt_entry(x.string is Some, "string"@, JsonView::Str(x.string->0));
    let s3 = opt_entry(x.boolean is Some, "boolean"@, JsonView::Bool(x.boolean->0));
    let s4 = opt_entry(x.int8 is Some, "int8"@, JsonView::Int(x.int8->0 as i64));
    let s5 = opt_entry(x.uint8 is Some, "uint8"@, JsonView::Int(x.uint8->0 as i64));
    let s6 = opt_entry(x.int16 is Some, "int16"@, JsonView::Int(x.int16->0 as i64));
    let s7 = opt_entry(x.uint16 is Some, "uint16"@, JsonView::Int(x.uint16->0 as i64));
    let s8 = opt_entry(x.int32 is Some, "int32"@, JsonView::Int(x.int32->0 as i64));
    let s9 = opt_entry(x.uint32 is Some, "uint32"@, JsonView::Int(x.uint32->0 as i64));
    let s10 = opt_entry(x.int64 is Some, "int64"@, JsonView::Str(int_text(x.int64->0 as int)));
    let s11 = opt_entry(x.uint64 is Some, "uint64"@, JsonView::Str(int_text(x.uint64->0 as int)));
    let s12 = opt_entry(x.timestamp is Some, "timestamp"@, JsonView::Str(x.timestamp->0));
    let s13 = opt_entry(x.enumeration is Some, "enum"@, JsonView::Str(enum_tag(x.enumeration->0)));
    let s14 = opt_entry(x.string_array is Some, "stringArray"@, JsonView::Arr(Seq::new(x.string_array->0.len(), |i: int| JsonView::Str(x.string_array->0[i]))));
    lemma_jlookup_opt_entry(x.any is Some, "any"@, x.any->0, "stringArray"@);
    lemma_jlookup_opt_entry(x.string is Some, "string"@, JsonView::Str(x.string->0), "stringArray"@);
    lemma_jlookup_opt_entry(x.boolean is Some, "boolean"@, JsonView::Bool(x.boolean->0), "stringArray"@);
    lemma_jlookup_opt_entry(x.int8 is Some, "int8"@, JsonView::Int(x.int8->0 as i64), "stringArray"@);
    lemma_jlookup_opt_entry(x.uint8 is Some, "uint8"@, JsonView::Int(x.uint8->0 as i64), "stringArray"@);
    lemma_jlookup_opt_entry(x.int16 is Some, "int16"@, JsonView::Int(x.int16->0 as i64), "stringArray"@);
    lemma_jlookup_opt_entry(x.uint16 is Some, "uint16"@, JsonView::Int(x.uint16->0 as i64), "stringArray"@);
    lemma_jlookup_opt_entry(x.int32 is Some, "int32"@, JsonView::Int(x.int32->0 as i64), "stringArray"@);
    lemma_jlookup_opt_entry(x.uint32 is Some, "uint32"@, JsonView::Int(x.uint32->0 as i64), "stringArray"@);
    lemma_jlookup_opt_entry(x.int64 is Some, "int64"@, JsonView::Str(int_text(x.int64->0 as int)), "stringArray"@);
    lemma_jlookup_opt_entry(x.uint64 is Some, "uint64"@, JsonView::Str(int_text(x.uint64->0 as int)), "stringArray"@);
    lemma_jlookup_opt_entry(x.timestamp is Some, "timestamp"@, JsonView::Str(x.timestamp->0), "stringArray"@);
    lemma_jlookup_opt_entry(x.enumeration is Some, "enum"@, JsonView::Str(enum_tag(x.enumeration->0)), "stringArray"@);
    lemma_jlookup_opt_entry(x.string_array is Some, "stringArray"@, JsonView::Arr(Seq::new(x.string_array->0.len(), |i: int| JsonView::Str(x.string_array->0[i]))), "stringArray"@);
    let l2 = s1 + s2;
    let l3 = l2 + s3;
    let l4 = l3 + s4;
    let l5 = l4 + s5;
    let l6 = l5 + s6;
    let l7 = l6 + s7;
    let l8 = l7 + s8;
    let l9 = l8 + s9;
    let l10 = l9 + s10;
    let l11 = l10 + s11;
    let l12 = l11 + s12;
    let l13 = l12 + s13;
    let l14 = l13 + s14;
    lemma_jlookup_concat(s1, s2, "stringArray"@);
    lemma_jlookup_concat(l2, s3, "stringArray"@);
    lemma_jlookup_concat(l3, s4, "stringArray"@);
    lemma_jlookup_concat(l4, s5, "stringArray"@);
    lemma_jlookup_concat(l5, s6, "stringArray"@);
    lemma_jlookup_concat(l6, s7, "stringArray"@);
    lemma_jlookup_concat(l7, s8, "stringArray"@);
    lemma_jlookup_concat(l8, s9, "stringArray"@);
    lemma_jlookup_concat(l9, s10, "stringArray"@);
    lemma_jlookup_concat(l10, s11, "stringArray"@);
    lemma_jlookup_concat(l11, s12, "stringArray"@);
    lemma_jlookup_concat(l12, s13, "stringArray"@);
    lemma_jlookup_concat(l13, s14, "stringArray"@);
    assert(reencoded_entries(x) == l14);
}

/// What each wire key finds in the object that a record's encoding
/// denotes.
proof fn lemma_reencoded_lookups(x: PartialObjectView)
    ensures
        jlookup(reencoded_entries(x), "any"@) == x.any,
        jlookup(reencoded_entries(x), "string"@) == (if x.string is Some { Some(JsonView::Str(x.string->0)) } else { None }),
        jlookup(reencoded_entries(x), "boolean"@) == (if x.boolean is Some { Some(JsonView::Bool(x.boolean->0)) } else { None }),
        jlookup(reencoded_entries(x), "int8"@) == (if x.int8 is Some { Some(JsonView::Int(x.int8->0 as i64)) } else { None }),
        jlookup(reencoded_entries(x), "uint8"@) == (if x.uint8 is Some { Some(JsonView::Int(x.uint8->0 as i64)) } else { None }),
        jlookup(reencoded_entries(x), "int16"@) == (if x.int16 is Some { Some(JsonView::Int(x.int16->0 as i64)) } else { None }),
        jlookup(reencoded_entries(x), "uint16"@) == (if x.uint16 is Some { Some(JsonView::Int(x.uint16->0 as i64)) } else { None }),
        jlookup(reencoded_entries(x), "int32"@) == (if x.int32 is Some { Some(JsonView::Int(x.int32->0 as i64)) } else { None }),
        jlookup(reencoded_entries(x), "uint32"@) == (if x.uint32 is Some { Some(JsonView::Int(x.uint32->0 as i64)) } else { None }),
        jlookup(reencoded_entries(x), "int64"@) == (if x.int64 is Some { Some(JsonView::Str(int_text(x.int64->0 as int))) } else { None }),
        jlookup(reencoded_entries(x), "uint64"@) == (if x.uint64 is Some { Some(JsonView::Str(int_text(x.uint64->0 as int))) } else { None }),
        jlookup(reencoded_entries(x), "timestamp"@) == (if x.timestamp is Some { Some(JsonView::Str(x.timestamp->0)) } else { None }),
        jlookup(reencoded_entries(x), "enum"@) == (if x.enumeration is Some { Some(JsonView::Str(enum_tag(x.enumeration->0))) } else { None }),
        jlookup(reencoded_entries(x), "stringArray"@) == (if x.string_array is Some { Some(JsonView::Arr(Seq::new(x.string_array->0.len(), |i: int| JsonView::Str(x.string_array->0[i])))) } else { None }),
{
    lemma_lookup_any(x);
    lemma_lookup_string(x);
    lemma_lookup_boolean(x);
    lemma_lookup_int8(x);
    lemma_lookup_uint8(x);
    lemma_lookup_int16(x);
    lemma_lookup_uint16(x);
    lemma_lookup_int32(x);
    lemma_lookup_uint32(x);
    lemma_lookup_int64(x);
    lemma_lookup_uint64(x);
    lemma_lookup_timestamp(x);
    lemma_lookup_enumeration(x);
    lemma_lookup_string_array(x);
}

/// Round trip: a record built from values of the fields' native types
/// decodes back, unchanged, from the JSON object its encoding denotes.
/// The floating-point fields must be absent (the verified decoder never
/// fills them), and a present timestamp must be in canonical RFC 3339
/// form, as every decoded timestamp is.
#[verifier::rlimit(100)]
pub proof fn lemma_round_trip(x: PartialObjectView)
    requires
        x.float32 is None,
        x.float64 is None,
        x.timestamp is Some ==> rfc3339_canon(x.timestamp->0) == Some(x.timestamp->0),
    ensures
        decoded_view(reencoded(x)) == x,
{
    lemma_reencoded_lookups(x);
    if x.int64 is Some {
        crate::text::lemma_parse_i64_render(x.int64->0);
    }
    if x.uint64 is Some {
        assert(int_text(x.uint64->0 as int) == dec_text(x.uint64->0 as nat));
        crate::text::lemma_parse_u64_render(x.uint64->0);
    }
    if x.enumeration is Some {
        lemma_enum_round_trip(x.enumeration->0);
    }
    let d = decoded_view(reencoded(x));
    assert(d.any == x.any);
    assert(d.string == x.string);
    assert(d.boolean == x.boolean);
    assert(d.float32 == x.float32);
    assert(d.float64 == x.float64);
    assert(d.int8 == x.int8);
    assert(d.uint8 == x.uint8);
    assert(d.int16 == x.int16);
    assert(d.uint16 == x.uint16);
    assert(d.int32 == x.int32);
    assert(d.uint32 == x.uint32);
    assert(d.int64 == x.int64);
    assert(d.uint64 == x.uint64);
    assert(d.timestamp == x.timestamp);
    assert(d.enumeration == x.enumeration);
    if x.string_array is Some {
        let elems = x.string_array->0;
        let arr = Seq::new(elems.len(), |i: int| JsonView::Str(elems[i]));
        assert(Seq::new(arr.len(), |i: int| coerced_string(arr[i])) =~= elems);
    }
    assert(d.string_array == x.string_array);
}

/// Absence is preserved: the all-absent record's JSON encoding is
/// exactly the empty object, and its query encoding the empty string.
pub proof fn lemma_absent_encodes_empty(x: PartialObjectView)
    requires
        x == absent_view(),
    ensures
        json_text_of(x) == "{}"@,
        query_text_of(x) == Seq::<char>::empty(),
{
    reveal_strlit("{}");
    assert(json_entries(x) =~= Seq::<Seq<char>>::empty());
    assert(query_entries(x) =~= Seq::<Seq<char>>::empty());
    assert(json_text_of(x) =~= "{}"@);
}

} // verus!
