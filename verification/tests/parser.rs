use vizier::json::JsonValue;
use vizier::response::VizierError;
use vizier::response::parse_untyped;

fn s(t: &str) -> JsonValue {
    JsonValue::Str(t.to_owned())
}

fn num(t: &str) -> JsonValue {
    JsonValue::Num(t.to_owned())
}

fn obj(entries: Vec<(&str, JsonValue)>) -> JsonValue {
    JsonValue::Obj(entries.into_iter().map(|(k, v)| (k.to_owned(), v)).collect())
}

fn column(name: &str, ucd: &str) -> JsonValue {
    obj(vec![("name", s(name)), ("ucd", s(ucd))])
}

fn response(cols: Vec<JsonValue>, rows: Vec<JsonValue>) -> JsonValue {
    obj(vec![
        ("metadata", JsonValue::Arr(cols)),
        ("data", JsonValue::Arr(rows)),
    ])
}

#[test]
fn two_rows_reshape_in_order() {
    let body = response(
        vec![column("x", "x")],
        vec![
            JsonValue::Arr(vec![num("1")]),
            JsonValue::Arr(vec![num("2")]),
        ],
    );
    let result = parse_untyped(&body).unwrap();
    assert_eq!(result.len(), 2);
    assert_eq!(result.data()[0], obj(vec![("x", num("1"))]));
    assert_eq!(result.data()[1], obj(vec![("x", num("2"))]));
}

#[test]
fn records_carry_all_column_names_by_position() {
    let body = response(
        vec![column("ra", "pos.eq.ra"), column("dec", "pos.eq.dec")],
        vec![
            JsonValue::Arr(vec![num("1"), num("2")]),
            JsonValue::Arr(vec![num("3"), JsonValue::Null]),
            JsonValue::Arr(vec![s("a"), JsonValue::Bool(true)]),
        ],
    );
    let result = parse_untyped(&body).unwrap();
    assert_eq!(result.len(), 3);
    assert_eq!(
        result.data()[0],
        obj(vec![("ra", num("1")), ("dec", num("2"))])
    );
    assert_eq!(
        result.data()[1],
        obj(vec![("ra", num("3")), ("dec", JsonValue::Null)])
    );
    assert_eq!(
        result.data()[2],
        obj(vec![("ra", s("a")), ("dec", JsonValue::Bool(true))])
    );
}

#[test]
fn metadata_fields_carry_over() {
    let full = obj(vec![
        ("name", s("flux")),
        ("description", s("mean flux")),
        ("arraysize", s("3")),
        ("unit", s("mJy")),
        ("ucd", s("phot.flux")),
    ]);
    let body = response(vec![full, column("x", "meta.id")], vec![]);
    let result = parse_untyped(&body).unwrap();
    assert!(result.is_empty());
    let meta = result.meta();
    assert_eq!(meta.len(), 2);
    assert_eq!(meta[0].name, "flux");
    assert_eq!(meta[0].description, "mean flux");
    assert_eq!(meta[0].arraysize, Some("3".to_owned()));
    assert_eq!(meta[0].unit, Some("mJy".to_owned()));
    assert_eq!(meta[0].ucd, "phot.flux");
    assert_eq!(meta[1].name, "x");
    assert_eq!(meta[1].description, "");
    assert_eq!(meta[1].arraysize, None);
    assert_eq!(meta[1].unit, None);
}

#[test]
fn missing_metadata_is_a_schema_error() {
    let body = obj(vec![("data", JsonValue::Arr(vec![]))]);
    let err = parse_untyped(&body).unwrap_err();
    assert!(matches!(err, VizierError::UnexpectedSchema(_)));
}

#[test]
fn metadata_not_an_array_is_a_schema_error() {
    let body = obj(vec![
        ("metadata", num("1")),
        ("data", JsonValue::Arr(vec![])),
    ]);
    let err = parse_untyped(&body).unwrap_err();
    assert!(matches!(err, VizierError::UnexpectedSchema(_)));
}

#[test]
fn missing_data_is_a_schema_error() {
    let body = obj(vec![("metadata", JsonValue::Arr(vec![]))]);
    let err = parse_untyped(&body).unwrap_err();
    assert!(matches!(err, VizierError::UnexpectedSchema(_)));
}

#[test]
fn data_row_not_an_array_is_a_schema_error() {
    let body = response(vec![column("x", "x")], vec![num("1")]);
    let err = parse_untyped(&body).unwrap_err();
    assert!(matches!(err, VizierError::UnexpectedSchema(_)));
}

#[test]
fn body_not_an_object_is_a_schema_error() {
    let err = parse_untyped(&JsonValue::Arr(vec![])).unwrap_err();
    assert!(matches!(err, VizierError::UnexpectedSchema(_)));
}

#[test]
fn column_without_name_is_a_schema_error() {
    let body = response(vec![obj(vec![("ucd", s("x"))])], vec![]);
    let err = parse_untyped(&body).unwrap_err();
    assert!(matches!(err, VizierError::UnexpectedSchema(_)));
}

#[test]
fn column_without_ucd_is_a_schema_error() {
    let body = response(vec![obj(vec![("name", s("x"))])], vec![]);
    let err = parse_untyped(&body).unwrap_err();
    assert!(matches!(err, VizierError::UnexpectedSchema(_)));
}

#[test]
fn column_with_non_string_unit_is_a_schema_error() {
    let body = response(
        vec![obj(vec![("name", s("x")), ("ucd", s("x")), ("unit", num("2"))])],
        vec![],
    );
    let err = parse_untyped(&body).unwrap_err();
    assert!(matches!(err, VizierError::UnexpectedSchema(_)));
}

#[test]
fn row_longer_than_metadata_is_a_schema_error() {
    let body = response(
        vec![column("x", "x")],
        vec![JsonValue::Arr(vec![num("1"), num("2")])],
    );
    let err = parse_untyped(&body).unwrap_err();
    assert!(matches!(err, VizierError::UnexpectedSchema(_)));
}

#[test]
fn short_row_keeps_only_its_own_columns() {
    let body = response(
        vec![column("x", "x"), column("y", "y")],
        vec![JsonValue::Arr(vec![num("1")])],
    );
    let result = parse_untyped(&body).unwrap();
    assert_eq!(result.data()[0], obj(vec![("x", num("1"))]));
}

#[test]
fn hundred_row_mock_round_trip() {
    let query = vizier::builder::QueryBuilder::new()
        .with_select("SELECT TOP 100 *")
        .with_from("FROM \"I/261/fonac\"")
        .build();
    assert_eq!(query, "SELECT TOP 100 * FROM \"I/261/fonac\" ");
    let mut rows = Vec::new();
    for i in 0..100 {
        rows.push(JsonValue::Arr(vec![num(&i.to_string())]));
    }
    let body = response(vec![column("recno", "meta.record")], rows);
    let result = parse_untyped(&body).unwrap();
    assert_eq!(result.len(), 100);
    assert!(!result.is_empty());
    assert_eq!(result.data()[99], obj(vec![("recno", num("99"))]));
}

#[test]
fn deep_copy_equals_the_original() {
    let v = response(
        vec![column("x", "x")],
        vec![JsonValue::Arr(vec![
            num("1"),
            s("two"),
            JsonValue::Bool(false),
            JsonValue::Null,
        ])],
    );
    assert_eq!(vizier::json::clone_value(&v), v);
}

#[test]
fn object_lookup_takes_the_first_match() {
    let entries = vec![
        ("k".to_owned(), num("1")),
        ("k".to_owned(), num("2")),
        ("other".to_owned(), num("3")),
    ];
    assert_eq!(vizier::json::obj_get(&entries, "k"), Some(&num("1")));
    assert_eq!(vizier::json::obj_get(&entries, "other"), Some(&num("3")));
    assert_eq!(vizier::json::obj_get(&entries, "missing"), None);
}
