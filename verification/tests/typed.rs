use serde::de::Error;
use vizier::json::JsonValue;
use vizier::response::VizierError;
use vizier::response::parse_query_result;
use vizier::text::to_json_text;

fn s(t: &str) -> JsonValue {
    JsonValue::Str(t.to_owned())
}

fn num(t: &str) -> JsonValue {
    JsonValue::Num(t.to_owned())
}

fn obj(entries: Vec<(&str, JsonValue)>) -> JsonValue {
    JsonValue::Obj(entries.into_iter().map(|(k, v)| (k.to_owned(), v)).collect())
}

fn response(cols: Vec<(&str, &str)>, rows: Vec<JsonValue>) -> JsonValue {
    let columns = cols
        .into_iter()
        .map(|(name, ucd)| obj(vec![("name", s(name)), ("ucd", s(ucd))]))
        .collect();
    obj(vec![
        ("metadata", JsonValue::Arr(columns)),
        ("data", JsonValue::Arr(rows)),
    ])
}

#[derive(Debug, PartialEq)]
struct Star {
    recno: i64,
    name: String,
}

impl<'de> serde::Deserialize<'de> for Star {
    fn deserialize<D>(deserializer: D) -> Result<Self, D::Error>
    where
        D: serde::Deserializer<'de>,
    {
        let v = serde_json::Value::deserialize(deserializer)?;
        let recno = v
            .get("recno")
            .and_then(|n| n.as_i64())
            .ok_or_else(|| D::Error::custom("missing mandatory field `recno`"))?;
        let name = v
            .get("name")
            .and_then(|x| x.as_str())
            .ok_or_else(|| D::Error::custom("missing mandatory field `name`"))?
            .to_owned();
        Ok(Star { recno, name })
    }
}

#[test]
fn typed_decode_succeeds_and_keeps_row_order() {
    let body = response(
        vec![("recno", "meta.record"), ("name", "meta.id")],
        vec![
            JsonValue::Arr(vec![num("7"), s("Vega")]),
            JsonValue::Arr(vec![num("9"), s("Deneb")]),
        ],
    );
    let result = parse_query_result::<Star>(&body).unwrap();
    assert_eq!(result.len(), 2);
    assert_eq!(
        result.data()[0],
        Star { recno: 7, name: "Vega".to_owned() }
    );
    assert_eq!(
        result.data()[1],
        Star { recno: 9, name: "Deneb".to_owned() }
    );
    assert_eq!(result.meta()[1].name, "name");
}

#[test]
fn missing_mandatory_field_fails_the_whole_call() {
    let body = response(
        vec![("recno", "meta.record"), ("name", "meta.id")],
        vec![
            JsonValue::Arr(vec![num("7"), s("Vega")]),
            JsonValue::Arr(vec![num("9")]),
            JsonValue::Arr(vec![num("11"), s("Altair")]),
        ],
    );
    let err = parse_query_result::<Star>(&body).unwrap_err();
    assert!(matches!(err, VizierError::DeserializationFailed(_)));
}

#[test]
fn type_mismatch_fails_the_whole_call() {
    let body = response(
        vec![("recno", "meta.record"), ("name", "meta.id")],
        vec![JsonValue::Arr(vec![s("not a number"), s("Vega")])],
    );
    let err = parse_query_result::<Star>(&body).unwrap_err();
    assert!(matches!(err, VizierError::DeserializationFailed(_)));
}

#[test]
fn typed_decode_reports_schema_errors_first() {
    let body = obj(vec![("data", JsonValue::Arr(vec![]))]);
    let err = parse_query_result::<Star>(&body).unwrap_err();
    assert!(matches!(err, VizierError::UnexpectedSchema(_)));
}

#[test]
fn untyped_target_sees_the_reshaped_records() {
    let body = response(
        vec![("x", "x")],
        vec![
            JsonValue::Arr(vec![num("1")]),
            JsonValue::Arr(vec![num("2")]),
        ],
    );
    let result = parse_query_result::<serde_json::Value>(&body).unwrap();
    assert_eq!(result.len(), 2);
    let mut first = serde_json::Map::new();
    first.insert("x".to_owned(), serde_json::Value::from(1i64));
    let mut second = serde_json::Map::new();
    second.insert("x".to_owned(), serde_json::Value::from(2i64));
    assert_eq!(result.data()[0], serde_json::Value::Object(first));
    assert_eq!(result.data()[1], serde_json::Value::Object(second));
}

#[test]
fn json_text_renders_compact_json() {
    let v = obj(vec![
        ("a", JsonValue::Arr(vec![JsonValue::Null, JsonValue::Bool(true), num("2.5")])),
        ("b", s("x")),
    ]);
    assert_eq!(to_json_text(&v), "{\"a\":[null,true,2.5],\"b\":\"x\"}");
}

#[test]
fn json_text_escapes_string_content() {
    let v = obj(vec![("k\"ey", s("a\\b\nc\td\r\u{8}\u{c}\u{1}e"))]);
    assert_eq!(
        to_json_text(&v),
        "{\"k\\\"ey\":\"a\\\\b\\nc\\td\\r\\b\\f\\u0001e\"}"
    );
}

#[test]
fn escaped_text_decodes_back_to_the_same_string() {
    let body = response(
        vec![("name", "meta.id"), ("recno", "meta.record")],
        vec![JsonValue::Arr(vec![s("line\none\t\"quoted\"\u{2}"), num("1")])],
    );
    let result = parse_query_result::<Star>(&body).unwrap();
    assert_eq!(result.data()[0].name, "line\none\t\"quoted\"\u{2}");
}

#[test]
fn zero_row_body_decodes_to_an_empty_ok_result() {
    let body = response(vec![("recno", "meta.record"), ("name", "meta.id")], vec![]);
    let result = parse_query_result::<Star>(&body).unwrap();
    assert!(result.is_empty());
    assert_eq!(result.len(), 0);
    assert_eq!(result.meta()[0].name, "recno");
}
