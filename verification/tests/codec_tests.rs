use partial_object_codec::codec::{PartialObject, PartialObjectEnum};
use partial_object_codec::json::JsonValue;

fn obj(entries: Vec<(&str, JsonValue)>) -> JsonValue {
    JsonValue::Obj(entries.into_iter().map(|(k, v)| (k.to_string(), v)).collect())
}

#[test]
fn absent_encodes_empty() {
    let x = PartialObject::new();
    assert_eq!(x.to_json_string(), "{}");
    assert_eq!(x.to_query_params_string(), "");
}

#[test]
fn overflow_zeroing() {
    let x = PartialObject::from_json_string("{\"int8\": 999}".to_string());
    assert_eq!(x.int8, Some(0));
}

#[test]
fn type_mismatch_absence() {
    let x = PartialObject::from_json_string("{\"boolean\": \"true\"}".to_string());
    assert_eq!(x.boolean, None);
}

#[test]
fn u64_string_encoding() {
    let mut x = PartialObject::new();
    x.uint64 = Some(18446744073709551615u64);
    assert_eq!(x.to_json_string(), "{\"uint64\":\"18446744073709551615\"}");
    assert_eq!(x.to_query_params_string(), "uint64=18446744073709551615");
}

#[test]
fn u64_decodes_from_string_only() {
    let x = PartialObject::from_json_string(
        "{\"uint64\": \"18446744073709551615\", \"int64\": \"-5\"}".to_string(),
    );
    assert_eq!(x.uint64, Some(18446744073709551615u64));
    assert_eq!(x.int64, Some(-5));
    let y = PartialObject::from_json_string("{\"uint64\": 7}".to_string());
    assert_eq!(y.uint64, None);
    let z = PartialObject::from_json_string("{\"uint64\": \"zz\"}".to_string());
    assert_eq!(z.uint64, Some(0));
}

#[test]
fn enum_fallback() {
    let x = PartialObject::from_json_string("{\"enum\": \"Z\"}".to_string());
    assert_eq!(x.enumeration, Some(PartialObjectEnum::A));
    let y = PartialObject::from_json_string("{\"enum\": \"B\"}".to_string());
    assert_eq!(y.enumeration, Some(PartialObjectEnum::B));
}

#[test]
fn array_element_coercion() {
    let x = PartialObject::from_json_string("{\"stringArray\": [\"a\", 5, \"c\"]}".to_string());
    assert_eq!(
        x.string_array,
        Some(vec!["a".to_string(), "".to_string(), "c".to_string()])
    );
}

#[test]
fn timestamp_offset_preserved() {
    let x = PartialObject::from_json_string(
        "{\"timestamp\": \"2024-01-01T00:00:00+05:00\"}".to_string(),
    );
    assert_eq!(x.timestamp, Some("2024-01-01T00:00:00+05:00".to_string()));
    assert!(x.to_json_string().contains("+05:00"));
}

#[test]
fn timestamp_canonicalized_not_copied() {
    let x = PartialObject::from_json_string("{\"timestamp\": \"2024-01-01T00:00:00Z\"}".to_string());
    assert_eq!(x.timestamp, Some("2024-01-01T00:00:00+00:00".to_string()));
    let y = PartialObject::from_json_string("{\"timestamp\": \"nope\"}".to_string());
    assert_eq!(y.timestamp, Some("1970-01-01T00:00:00+00:00".to_string()));
}

#[test]
fn round_trip_through_text() {
    let mut x = PartialObject::new();
    x.any = Some(obj(vec![("k", JsonValue::Int(3))]));
    x.string = Some("hello".to_string());
    x.boolean = Some(true);
    x.int8 = Some(-8);
    x.uint8 = Some(8);
    x.int16 = Some(-1600);
    x.uint16 = Some(1600);
    x.int32 = Some(-320000);
    x.uint32 = Some(320000);
    x.int64 = Some(-9223372036854775808i64);
    x.uint64 = Some(18446744073709551615u64);
    x.timestamp = Some("2024-01-01T00:00:00+05:00".to_string());
    x.enumeration = Some(PartialObjectEnum::B);
    x.string_array = Some(vec!["a".to_string(), "b".to_string()]);
    let text = x.to_json_string();
    let y = PartialObject::from_json_string(text);
    assert_eq!(x, y);
}

#[test]
fn from_json_value_direct() {
    let v = obj(vec![
        ("boolean", JsonValue::Bool(false)),
        ("int8", JsonValue::Int(12)),
        ("string", JsonValue::Str("s\n\"q".to_string())),
    ]);
    let x = PartialObject::from_json(v);
    assert_eq!(x.boolean, Some(false));
    assert_eq!(x.int8, Some(12));
    assert_eq!(x.string, Some("s\n\"q".to_string()));
    assert_eq!(x.to_json_string(), "{\"string\":\"s\\n\\\"q\",\"boolean\":false,\"int8\":12}");
}

#[test]
fn non_object_decodes_all_absent() {
    let x = PartialObject::from_json_string("[1,2]".to_string());
    assert_eq!(x, PartialObject::new());
    let y = PartialObject::from_json_string("not json".to_string());
    assert_eq!(y, PartialObject::new());
}

#[test]
fn enum_codec_operations() {
    assert_eq!(PartialObjectEnum::new(), PartialObjectEnum::A);
    assert_eq!(PartialObjectEnum::from_json_string("\"B\"".to_string()), PartialObjectEnum::B);
    assert_eq!(PartialObjectEnum::from_json_string("3".to_string()), PartialObjectEnum::A);
    assert_eq!(PartialObjectEnum::B.to_json_string(), "\"B\"");
    assert_eq!(PartialObjectEnum::B.to_query_params_string(), "B");
}

#[test]
fn any_field_reserializes() {
    let x = PartialObject::from_json_string("{\"any\": {\"b\": [1, null, \"t\"]}}".to_string());
    assert_eq!(x.to_json_string(), "{\"any\":{\"b\":[1,null,\"t\"]}}");
    assert_eq!(x.to_query_params_string(), "any={\"b\":[1,null,\"t\"]}");
}

#[test]
fn query_encoding_shapes() {
    let mut x = PartialObject::new();
    x.string = Some("a b".to_string());
    x.enumeration = Some(PartialObjectEnum::A);
    x.string_array = Some(vec!["x".to_string()]);
    assert_eq!(
        x.to_query_params_string(),
        "string=a b&enum=A&stringArray=[\"x\"]"
    );
}
