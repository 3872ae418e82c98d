//! The library's own model of a JSON value, its mathematical view, its
//! canonical text, and the trusted boundary that parses text into it.

use vstd::prelude::*;
use crate::text::{
    bool_text, esc_json, int_text, join_texts, lemma_join_snoc, push_char, push_esc_json,
    push_int,
};

verus! {

/// A JSON value as the codec sees it.
///
/// A number whose value is an integer that fits in `i64` is held as
/// `Int`; any other number is held as `NumText`, its decimal rendering.
#[derive(Debug, PartialEq)]
pub enum JsonValue {
    Null,
    Bool(bool),
    Int(i64),
    NumText(String),
    Str(String),
    Arr(Vec<JsonValue>),
    Obj(Vec<(String, JsonValue)>),
}

/// The mathematical shape of a `JsonValue`: strings become `Seq<char>`.
pub enum JsonView {
    Null,
    Bool(bool),
    Int(i64),
    NumText(Seq<char>),
    Str(Seq<char>),
    Arr(Seq<JsonView>),
    Obj(Seq<(Seq<char>, JsonView)>),
}

/// The view of one `JsonValue`.
pub open spec fn jv_view(v: JsonValue) -> JsonView
    decreases v,
{
    match v {
        JsonValue::Null => JsonView::Null,
        JsonValue::Bool(b) => JsonView::Bool(b),
        JsonValue::Int(i) => JsonView::Int(i),
        JsonValue::NumText(t) => JsonView::NumText(t@),
        JsonValue::Str(s) => JsonView::Str(s@),
        JsonValue::Arr(a) => JsonView::Arr(jv_views(a@)),
        JsonValue::Obj(o) => JsonView::Obj(jv_entry_views(o@)),
    }
}

/// The views of a sequence of values, element for element.
pub open spec fn jv_views(a: Seq<JsonValue>) -> Seq<JsonView>
    decreases a,
{
    if a.len() == 0 {
        Seq::empty()
    } else {
        seq![jv_view(a[0])] + jv_views(a.drop_first())
    }
}

/// The views of a sequence of key-value entries, element for element.
pub open spec fn jv_entry_views(o: Seq<(String, JsonValue)>) -> Seq<(Seq<char>, JsonView)>
    decreases o,
{
    if o.len() == 0 {
        Seq::empty()
    } else {
        seq![(o[0].0@, jv_view(o[0].1))] + jv_entry_views(o.drop_first())
    }
}

impl View for JsonValue {
    type V = JsonView;

    open spec fn view(&self) -> JsonView {
        jv_view(*self)
    }
}

/// Element-wise reading of `jv_views`.
pub proof fn lemma_jv_views(a: Seq<JsonValue>)
    ensures
        jv_views(a).len() == a.len(),
        forall|i: int| 0 <= i < a.len() ==> jv_views(a)[i] == jv_view(a[i]),
    decreases a.len(),
{
    if a.len() > 0 {
        lemma_jv_views(a.drop_first());
    }
}

/// Element-wise reading of `jv_entry_views`.
pub proof fn lemma_jv_entry_views(o: Seq<(String, JsonValue)>)
    ensures
        jv_entry_views(o).len() == o.len(),
        forall|i: int| 0 <= i < o.len() ==> jv_entry_views(o)[i] == (o[i].0@, jv_view(o[i].1)),
    decreases o.len(),
{
    if o.len() > 0 {
        lemma_jv_entry_views(o.drop_first());
    }
}

// --- canonical text ---

/// A string as it stands in JSON output: quoted, fully escaped.
pub open spec fn quoted_json(s: Seq<char>) -> Seq<char> {
    seq!['"'] + esc_json(s) + seq!['"']
}

/// The canonical text of a JSON value, as the codec re-serializes a
/// stored opaque value.
pub open spec fn json_text(v: JsonView) -> Seq<char>
    decreases v,
{
    match v {
        JsonView::Null => "null"@,
        JsonView::Bool(b) => bool_text(b),
        JsonView::Int(i) => int_text(i as int),
        JsonView::NumText(t) => t,
        JsonView::Str(s) => quoted_json(s),
        JsonView::Arr(a) => seq!['['] + join_texts(json_texts(a), ',') + seq![']'],
        JsonView::Obj(o) => seq!['{'] + join_texts(obj_entry_texts(o), ',') + seq!['}'],
    }
}

/// The canonical texts of a sequence of values, element for element.
pub open spec fn json_texts(a: Seq<JsonView>) -> Seq<Seq<char>>
    decreases a,
{
    if a.len() == 0 {
        Seq::empty()
    } else {
        seq![json_text(a[0])] + json_texts(a.drop_first())
    }
}

/// The canonical texts of a sequence of key-value entries.
pub open spec fn obj_entry_texts(o: Seq<(Seq<char>, JsonView)>) -> Seq<Seq<char>>
    decreases o,
{
    if o.len() == 0 {
        Seq::empty()
    } else {
        seq![quoted_json(o[0].0) + seq![':'] + json_text(o[0].1)] + obj_entry_texts(
            o.drop_first(),
        )
    }
}

/// Element-wise reading of `json_texts`.
pub proof fn lemma_json_texts(a: Seq<JsonView>)
    ensures
        json_texts(a).len() == a.len(),
        forall|i: int| 0 <= i < a.len() ==> json_texts(a)[i] == json_text(a[i]),
    decreases a.len(),
{
    if a.len() > 0 {
        lemma_json_texts(a.drop_first());
    }
}

/// Element-wise reading of `obj_entry_texts`.
pub proof fn lemma_obj_entry_texts(o: Seq<(Seq<char>, JsonView)>)
    ensures
        obj_entry_texts(o).len() == o.len(),
        forall|i: int|
            0 <= i < o.len() ==> obj_entry_texts(o)[i] == quoted_json(o[i].0) + seq![':']
                + json_text(o[i].1),
    decreases o.len(),
{
    if o.len() > 0 {
        lemma_obj_entry_texts(o.drop_first());
    }
}

/// Writes a quoted, fully escaped JSON string.
pub fn push_quoted_json(s: &str, out: &mut String)
    ensures
        final(out)@ == old(out)@ + quoted_json(s@),
{
    push_char(out, '"');
    push_esc_json(s, out);
    push_char(out, '"');
}

/// Writes the canonical text of `v` onto `out`.
#[verifier::loop_isolation(false)]
pub fn push_json(v: &JsonValue, out: &mut String)
    ensures
        final(out)@ == old(out)@ + json_text(v@),
    decreases *v,
{
    match v {
        JsonValue::Null => {
            out.append("null");
        },
        JsonValue::Bool(b) => {
            if *b {
                out.append("true");
            } else {
                out.append("false");
            }
        },
        JsonValue::Int(i) => {
            push_int(*i, out);
        },
        JsonValue::NumText(t) => {
            out.append(t.as_str());
        },
        JsonValue::Str(s) => {
            push_quoted_json(s.as_str(), out);
        },
        JsonValue::Arr(a) => {
            push_char(out, '[');
            let ghost texts = json_texts(jv_views(a@));
            proof {
                lemma_jv_views(a@);
                lemma_json_texts(jv_views(a@));
            }
            let mut i: usize = 0;
            while i < a.len()
                invariant
                    i <= a.len(),
                    out@ == old(out)@ + seq!['['] + join_texts(texts.take(i as int), ','),
                decreases a.len() - i,
            {
                if i > 0 {
                    push_char(out, ',');
                }
                push_json(&a[i], out);
                proof {
                    lemma_join_snoc(texts, ',', i as int);
                }
                i = i + 1;
            }
            proof {
                assert(texts.take(a.len() as int) =~= texts);
            }
            push_char(out, ']');
        },
        JsonValue::Obj(o) => {
            push_char(out, '{');
            let ghost texts = obj_entry_texts(jv_entry_views(o@));
            proof {
                lemma_jv_entry_views(o@);
                lemma_obj_entry_texts(jv_entry_views(o@));
            }
            let mut i: usize = 0;
            while i < o.len()
                invariant
                    i <= o.len(),
                    out@ == old(out)@ + seq!['{'] + join_texts(texts.take(i as int), ','),
                decreases o.len() - i,
            {
                if i > 0 {
                    push_char(out, ',');
                }
                push_quoted_json(o[i].0.as_str(), out);
                push_char(out, ':');
                push_json(&o[i].1, out);
                proof {
                    lemma_join_snoc(texts, ',', i as int);
                }
                i = i + 1;
            }
            proof {
                assert(texts.take(o.len() as int) =~= texts);
            }
            push_char(out, '}');
        },
    }
}

/// The canonical text of `v` as an owned string.
pub fn render_json(v: &JsonValue) -> (s: String)
    ensures
        s@ == json_text(v@),
{
    let mut s = String::new();
    push_json(v, &mut s);
    s
}

// --- the trusted parsing boundary ---

#[verifier::external_type_specification]
#[verifier::external_body]
pub struct ExSerdeValue(serde_json::Value);

/// What a piece of JSON text parses to, if anything; parsing is a
/// function of the text alone.
pub uninterp spec fn parsed_json(s: Seq<char>) -> Option<JsonView>;

/// Converts a parsed `serde_json::Value` into the codec's own model,
/// one variant for one variant; part of the trusted parsing boundary,
/// called only by `parse_json` below. A number inside the `i64` range
/// becomes `Int`; any other number keeps serde_json's own decimal
/// rendering as `NumText`.
#[verifier::external_body]
fn value_from_serde(v: serde_json::Value) -> JsonValue {
    match v {
        serde_json::Value::Null => JsonValue::Null,
        serde_json::Value::Bool(b) => JsonValue::Bool(b),
        serde_json::Value::Number(n) => match n.as_i64() {
            Some(i) => JsonValue::Int(i),
            None => JsonValue::NumText(n.to_string()),
        },
        serde_json::Value::String(s) => JsonValue::Str(s),
        serde_json::Value::Array(a) => JsonValue::Arr(
            a.into_iter().map(value_from_serde).collect(),
        ),
        serde_json::Value::Object(o) => JsonValue::Obj(
            o.into_iter().map(|e| (e.0, value_from_serde(e.1))).collect(),
        ),
    }
}

/// Relies on `serde_json::from_str`: whether a piece of text parses as
/// JSON, and the value it parses to, depend on the text alone.
#[verifier::external_body]
pub fn parse_json(s: &str) -> (r: Option<JsonValue>)
    ensures
        (match r {
            Some(v) => parsed_json(s@) == Some(v@),
            None => parsed_json(s@) is None,
        }),
{
    serde_json::from_str::<serde_json::Value>(s).ok().map(value_from_serde)
}

} // verus!
