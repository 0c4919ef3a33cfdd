use tantivy_bridge::document::Document;
use tantivy_bridge::error::{ErrorKind, Status};
use tantivy_bridge::facet::Facet;
use tantivy_bridge::host::HostValue;
use tantivy_bridge::json::Json;
use tantivy_bridge::schema::Schema;
use tantivy_bridge::schemabuilder::SchemaBuilder;
use tantivy_bridge::value::Value;

fn number(n: f64) -> HostValue {
    HostValue::Number(n.to_bits())
}

fn text(s: &str) -> HostValue {
    HostValue::Str(s.to_string())
}

fn object(entries: Vec<(&str, HostValue)>) -> HostValue {
    HostValue::Object(entries.into_iter().map(|(k, v)| (k.to_string(), v)).collect())
}

fn jstr(s: &str) -> Json {
    Json::Str(s.to_string())
}

fn schema() -> Schema {
    let mut builder = SchemaBuilder::new();
    builder.add_text_field("title", None).unwrap();
    builder.add_unsigned_field("year", None).unwrap();
    builder.add_bytes_field("blob", None).unwrap();
    builder.add_date_field("when", None).unwrap();
    builder.add_ip_addr_field("addr", None).unwrap();
    builder.build().unwrap()
}

#[test]
fn from_object_with_a_list() {
    let host = object(vec![("title", HostValue::Array(vec![text("a"), text("b")]))]);
    let doc = Document::from_dict(&host, None).unwrap();
    assert_eq!(doc.get_all("title"), vec![jstr("a"), jstr("b")]);
    assert_eq!(doc.get_first("title"), Some(jstr("a")));
    assert_eq!(doc.num_fields(), 1);
    assert!(!doc.is_empty());
    let shown = doc.to_dict();
    assert_eq!(shown, vec![("title".to_string(), vec![jstr("a"), jstr("b")])]);
    assert_eq!(doc.get_first("body"), None);
    assert_eq!(doc.get_all("body"), Vec::<Json>::new());
}

#[test]
fn a_new_document_is_empty() {
    let doc = Document::new();
    assert!(doc.is_empty());
    assert_eq!(doc.num_fields(), 0);
    assert_eq!(doc.to_dict(), vec![]);
    assert_eq!(doc.get_first("anything"), None);
}

#[test]
fn add_appends_and_never_replaces() {
    let mut doc = Document::new();
    doc.add_text("title".to_string(), "first".to_string());
    doc.add_text("title".to_string(), "second".to_string());
    assert_eq!(doc.num_fields(), 1);
    assert_eq!(doc.get_all("title"), vec![jstr("first"), jstr("second")]);
    assert_eq!(doc.get_first("title"), Some(jstr("first")));
    assert_eq!(
        doc.iter_values_for_field("title"),
        vec![Value::Str("first".to_string()), Value::Str("second".to_string())]
    );
}

#[test]
fn fields_are_kept_in_the_order_of_their_names() {
    let mut doc = Document::new();
    doc.add_unsigned("year".to_string(), 1999);
    doc.add_text("body".to_string(), "text".to_string());
    doc.add_boolean("draft".to_string(), true);
    doc.add_text("Zeta".to_string(), "upper case first".to_string());
    doc.add_text("body".to_string(), "more".to_string());
    let names: Vec<String> = doc.to_dict().into_iter().map(|(name, _)| name).collect();
    assert_eq!(names, vec!["Zeta", "body", "draft", "year"]);
    assert_eq!(doc.num_fields(), 4);
}

#[test]
fn each_add_makes_a_value_of_its_type() {
    let mut doc = Document::new();
    doc.add_text("t".to_string(), "x".to_string());
    doc.add_unsigned("u".to_string(), 7);
    doc.add_integer("i".to_string(), -7);
    doc.add_float("f".to_string(), 1.5f64.to_bits());
    doc.add_boolean("b".to_string(), false);
    doc.add_date("d".to_string(), 1_705_312_800_999);
    doc.add_facet("c".to_string(), &Facet::from_text("/a/b").unwrap());
    doc.add_bytes("y".to_string(), &vec![1, 2, 3]);
    doc.add_json("j".to_string(), &object(vec![("k", number(2.0))])).unwrap();
    doc.add_ip_addr("a".to_string(), "10.0.0.1").unwrap();
    assert_eq!(doc.iter_values_for_field("t"), vec![Value::Str("x".to_string())]);
    assert_eq!(doc.iter_values_for_field("u"), vec![Value::U64(7)]);
    assert_eq!(doc.iter_values_for_field("i"), vec![Value::I64(-7)]);
    assert_eq!(doc.iter_values_for_field("f"), vec![Value::F64(1.5f64.to_bits())]);
    assert_eq!(doc.iter_values_for_field("b"), vec![Value::Bool(false)]);
    assert_eq!(doc.iter_values_for_field("d"), vec![Value::Date(1_705_312_800)]);
    assert_eq!(
        doc.iter_values_for_field("c"),
        vec![Value::Facet(Facet::from_text("/a/b").unwrap())]
    );
    assert_eq!(doc.iter_values_for_field("y"), vec![Value::Bytes(vec![1, 2, 3])]);
    assert_eq!(
        doc.iter_values_for_field("j"),
        vec![Value::Object(vec![("k".to_string(), Value::U64(2))])]
    );
    assert_eq!(doc.iter_values_for_field("a"), vec![Value::IpAddr(0xffff_0a00_0001)]);
    assert_eq!(doc.num_fields(), 10);
}

#[test]
fn add_ip_addr_refuses_what_is_no_address() {
    let mut doc = Document::new();
    let error = doc.add_ip_addr("a".to_string(), "not an address").unwrap_err();
    assert_eq!(error.kind, ErrorKind::InvalidIpAddr);
    assert_eq!(error.subject, "not an address");
    assert_eq!(error.status(), Status::InvalidArg);
    assert!(doc.is_empty());
}

#[test]
fn add_json_refuses_what_is_no_object() {
    let mut doc = Document::new();
    let error = doc.add_json("j".to_string(), &number(1.0)).unwrap_err();
    assert_eq!(error.status(), Status::TypeMismatch);
    assert!(doc.is_empty());
}

#[test]
fn ipv4_comes_back_dotted() {
    let mut doc = Document::new();
    doc.add_ip_addr("addr".to_string(), "192.168.1.1").unwrap();
    assert_eq!(doc.iter_values_for_field("addr"), vec![Value::IpAddr(0xffff_c0a8_0101)]);
    assert_eq!(doc.get_first("addr"), Some(jstr("192.168.1.1")));
    assert_eq!(doc.get_all("addr"), vec![jstr("192.168.1.1")]);
    doc.add_ip_addr("addr".to_string(), "2001:db8::1").unwrap();
    assert_eq!(doc.get_all("addr"), vec![jstr("192.168.1.1"), jstr("2001:db8::1")]);
}

#[test]
fn ipv4_from_a_schema_field_comes_back_dotted() {
    let host = object(vec![("addr", text("192.168.1.1"))]);
    let doc = Document::from_dict(&host, Some(&schema())).unwrap();
    assert_eq!(doc.get_first("addr"), Some(jstr("192.168.1.1")));
}

#[test]
fn without_a_schema_types_are_inferred() {
    let host = object(vec![
        ("title", text("The Old Man and the Sea")),
        ("year", number(1952.0)),
        ("delta", number(-1.0)),
        ("ratio", number(0.5)),
        ("tags", HostValue::Array(vec![text("a"), number(2.0)])),
    ]);
    let doc = Document::from_dict(&host, None).unwrap();
    assert_eq!(doc.iter_values_for_field("year"), vec![Value::U64(1952)]);
    assert_eq!(doc.iter_values_for_field("delta"), vec![Value::I64(-1)]);
    assert_eq!(doc.iter_values_for_field("ratio"), vec![Value::F64(0.5f64.to_bits())]);
    assert_eq!(
        doc.iter_values_for_field("tags"),
        vec![Value::Str("a".to_string()), Value::U64(2)]
    );
    assert_eq!(doc.num_fields(), 5);
}

#[test]
fn with_a_schema_unknown_keys_are_passed_over() {
    let host = object(vec![
        ("title", text("kept")),
        ("unknown", HostValue::Opaque),
        ("year", number(2005.0)),
    ]);
    let doc = Document::from_dict(&host, Some(&schema())).unwrap();
    assert_eq!(doc.num_fields(), 2);
    assert_eq!(doc.get_first("unknown"), None);
    let names: Vec<String> = doc.to_dict().into_iter().map(|(name, _)| name).collect();
    assert_eq!(names, vec!["title", "year"]);
}

#[test]
fn with_a_schema_values_follow_the_declared_type() {
    let host = object(vec![
        ("year", number(2005.0)),
        ("when", text("2024-01-15T10:00:00Z")),
        ("blob", HostValue::Buffer(vec![1, 2, 3])),
    ]);
    let doc = Document::from_dict(&host, Some(&schema())).unwrap();
    assert_eq!(doc.iter_values_for_field("year"), vec![Value::U64(2005)]);
    assert_eq!(doc.iter_values_for_field("when"), vec![Value::Date(1_705_312_800)]);
    assert_eq!(doc.iter_values_for_field("blob"), vec![Value::Bytes(vec![1, 2, 3])]);
    assert_eq!(
        doc.get_first("blob"),
        Some(Json::Array(vec![Json::Unsigned(1), Json::Unsigned(2), Json::Unsigned(3)]))
    );
}

#[test]
fn an_unsigned_field_refuses_a_negative_number_in_a_document() {
    let host = object(vec![("title", text("kept")), ("year", number(-2005.0))]);
    let error = Document::from_dict(&host, Some(&schema())).unwrap_err();
    assert_eq!(error.status(), Status::TypeMismatch);
    assert_eq!(error.subject, "year");
}

#[test]
fn bytes_field_refuses_an_array_in_a_document() {
    let host = object(vec![(
        "blob",
        HostValue::Array(vec![number(1.0), number(2.0), number(3.0)]),
    )]);
    let error = Document::from_dict(&host, Some(&schema())).unwrap_err();
    assert_eq!(error.kind, ErrorKind::ExpectedBuffer);
    assert_eq!(error.status(), Status::InvalidArg);
}

#[test]
fn from_dict_needs_an_object() {
    let error = Document::from_dict(&text("no object"), None).unwrap_err();
    assert_eq!(error.kind, ErrorKind::ExpectedObject);
    assert_eq!(error.status(), Status::InvalidArg);
}

#[test]
fn extend_sets_the_list_of_each_key() {
    let mut doc = Document::new();
    doc.add_text("title".to_string(), "old".to_string());
    doc.add_text("body".to_string(), "stays".to_string());
    doc.extend(
        &object(vec![
            ("title", HostValue::Array(vec![text("new"), text("newer")])),
            ("year", number(2010.0)),
        ]),
        None,
    )
    .unwrap();
    assert_eq!(doc.get_all("title"), vec![jstr("new"), jstr("newer")]);
    assert_eq!(doc.get_all("body"), vec![jstr("stays")]);
    assert_eq!(doc.get_all("year"), vec![Json::Unsigned(2010)]);
    assert_eq!(doc.num_fields(), 3);
}

#[test]
fn a_field_without_values_is_not_in_the_document() {
    let host = object(vec![("title", HostValue::Array(vec![])), ("body", text("b"))]);
    let doc = Document::from_dict(&host, None).unwrap();
    assert_eq!(doc.num_fields(), 1);
    let names: Vec<String> = doc.to_dict().into_iter().map(|(name, _)| name).collect();
    assert_eq!(names, vec!["body"]);
    let mut doc = doc;
    doc.extend(&object(vec![("body", HostValue::Array(vec![]))]), None).unwrap();
    assert!(doc.is_empty());
}

#[test]
fn extend_stops_at_the_first_error() {
    let mut doc = Document::new();
    let error = doc
        .extend(
            &object(vec![
                ("a", number(1.0)),
                ("b", HostValue::Opaque),
                ("c", number(3.0)),
            ]),
            None,
        )
        .unwrap_err();
    assert_eq!(error.kind, ErrorKind::UnsupportedValue);
    assert_eq!(doc.get_all("a"), vec![Json::Unsigned(1)]);
    assert_eq!(doc.get_first("c"), None);
    assert_eq!(doc.num_fields(), 1);
}

#[test]
fn a_later_key_of_the_same_name_wins() {
    let host = object(vec![("t", text("first")), ("t", text("second"))]);
    let doc = Document::from_dict(&host, None).unwrap();
    assert_eq!(doc.get_all("t"), vec![jstr("second")]);
}

#[test]
fn to_dict_never_collapses_a_list_of_one() {
    let mut doc = Document::new();
    doc.add_unsigned("year".to_string(), 1999);
    assert_eq!(
        doc.to_dict(),
        vec![("year".to_string(), vec![Json::Unsigned(1999)])]
    );
}

#[test]
fn a_single_date_is_shown_in_milliseconds_and_a_list_in_seconds() {
    let mut doc = Document::new();
    doc.add_date("when".to_string(), 1_705_312_800_000);
    assert_eq!(doc.get_first("when"), Some(Json::Unsigned(1_705_312_800_000)));
    assert_eq!(doc.get_all("when"), vec![Json::Unsigned(1_705_312_800)]);
    assert_eq!(
        doc.to_dict(),
        vec![("when".to_string(), vec![Json::Unsigned(1_705_312_800_000)])]
    );
}

#[test]
fn documents_are_the_same_by_their_fields_and_values() {
    let mut a = Document::new();
    a.add_text("title".to_string(), "x".to_string());
    a.add_unsigned("year".to_string(), 1);
    let mut b = Document::new();
    b.add_unsigned("year".to_string(), 1);
    b.add_text("title".to_string(), "x".to_string());
    assert!(a.same(&b));
    assert_eq!(a, b);
    b.add_unsigned("year".to_string(), 2);
    assert!(!a.same(&b));
    let mut c = Document::new();
    c.add_text("title".to_string(), "x".to_string());
    c.add_integer("year".to_string(), 1);
    assert!(!a.same(&c));
}

#[test]
fn text_of_joins_the_texts_of_a_field() {
    let mut doc = Document::new();
    doc.add_text("body".to_string(), "one".to_string());
    doc.add_unsigned("body".to_string(), 2);
    doc.add_text("body".to_string(), "three".to_string());
    assert_eq!(doc.text_of("body"), "one three");
    assert_eq!(doc.text_of("title"), "");
    doc.add_unsigned("n".to_string(), 2);
    assert_eq!(doc.text_of("n"), "");
}

#[test]
fn documents_come_back_from_the_wire() {
    let mut doc = Document::new();
    doc.add_text("title".to_string(), "x".to_string());
    doc.add_unsigned("n".to_string(), 1);
    doc.add_integer("n".to_string(), 1);
    doc.add_float("n".to_string(), 1.0f64.to_bits());
    doc.add_date("n".to_string(), 1000);
    doc.add_ip_addr("addr".to_string(), "192.168.1.1").unwrap();
    doc.add_facet("cat".to_string(), &Facet::from_text("/a\\\\b/c").unwrap());
    let back = Document::from_wire(&doc.to_wire()).unwrap();
    assert!(back.same(&doc));
    assert_eq!(
        back.iter_values_for_field("n"),
        vec![Value::U64(1), Value::I64(1), Value::F64(1.0f64.to_bits()), Value::Date(1)]
    );
}

fn to_serde(json: &Json) -> serde_json::Value {
    match json {
        Json::Null => serde_json::Value::Null,
        Json::Bool(b) => serde_json::Value::Bool(*b),
        Json::Unsigned(n) => serde_json::Value::Number(serde_json::Number::from(*n)),
        Json::Signed(n) => serde_json::Value::Number(serde_json::Number::from(*n)),
        Json::Float(bits) => serde_json::Number::from_f64(f64::from_bits(*bits))
            .map(serde_json::Value::Number)
            .unwrap_or(serde_json::Value::Null),
        Json::Str(text) => serde_json::Value::String(text.clone()),
        Json::Array(items) => serde_json::Value::Array(items.iter().map(to_serde).collect()),
        Json::Object(entries) => serde_json::Value::Object(
            entries.iter().map(|(key, value)| (key.clone(), to_serde(value))).collect(),
        ),
    }
}

fn from_serde(value: &serde_json::Value) -> Json {
    match value {
        serde_json::Value::Null => Json::Null,
        serde_json::Value::Bool(b) => Json::Bool(*b),
        serde_json::Value::Number(n) => {
            if let Some(u) = n.as_u64() {
                Json::Unsigned(u)
            } else if let Some(i) = n.as_i64() {
                Json::Signed(i)
            } else {
                Json::Float(n.as_f64().unwrap().to_bits())
            }
        }
        serde_json::Value::String(text) => Json::Str(text.clone()),
        serde_json::Value::Array(items) => Json::Array(items.iter().map(from_serde).collect()),
        serde_json::Value::Object(entries) => Json::Object(
            entries.iter().map(|(key, value)| (key.clone(), from_serde(value))).collect(),
        ),
    }
}

fn through_json_text(json: &Json) -> Json {
    let text = serde_json::to_string(&to_serde(json)).unwrap();
    from_serde(&serde_json::from_str(&text).unwrap())
}

fn document_of_every_kind() -> Document {
    let mut doc = Document::new();
    doc.add_value("nothing".to_string(), Value::Null);
    doc.add_text("title".to_string(), "x".to_string());
    doc.add_unsigned("n".to_string(), 3);
    doc.add_integer("n".to_string(), 3);
    doc.add_integer("n".to_string(), 0);
    doc.add_integer("n".to_string(), -3);
    doc.add_integer("n".to_string(), i64::MAX);
    doc.add_integer("n".to_string(), i64::MIN);
    doc.add_float("n".to_string(), 3.0f64.to_bits());
    doc.add_float("n".to_string(), (-0.0f64).to_bits());
    doc.add_float("n".to_string(), 0.1f64.to_bits());
    doc.add_float("n".to_string(), f64::NAN.to_bits());
    doc.add_float("n".to_string(), f64::INFINITY.to_bits());
    doc.add_float("n".to_string(), f64::NEG_INFINITY.to_bits());
    doc.add_value("n".to_string(), Value::U64(u64::MAX));
    doc.add_boolean("flag".to_string(), true);
    doc.add_date("when".to_string(), 1_705_312_800_000);
    doc.add_date("when".to_string(), 0);
    doc.add_date("when".to_string(), -86_400_000);
    doc.add_bytes("blob".to_string(), &vec![0, 1, 255]);
    doc.add_ip_addr("addr".to_string(), "192.168.1.1").unwrap();
    doc.add_ip_addr("addr".to_string(), "2001:db8::1").unwrap();
    doc.add_facet("cat".to_string(), &Facet::from_text("/a/b").unwrap());
    doc.add_value(
        "nested".to_string(),
        Value::Array(vec![
            Value::I64(7),
            Value::U64(7),
            Value::Date(7),
            Value::Object(vec![
                ("z".to_string(), Value::I64(1)),
                ("a".to_string(), Value::F64(1.0f64.to_bits())),
                ("z".to_string(), Value::Null),
            ]),
        ]),
    );
    doc.add_text("Ünïcode ключ".to_string(), "v".to_string());
    doc
}

#[test]
fn a_signed_integer_that_is_not_negative_comes_back_from_json_text() {
    let mut doc = Document::new();
    doc.add_integer("a".to_string(), 3);
    let text = serde_json::to_string(&to_serde(&doc.to_wire())).unwrap();
    assert_eq!(text, "{\"a\":[{\"I64\":3}]}");
    let back = Document::from_wire(&from_serde(&serde_json::from_str(&text).unwrap())).unwrap();
    assert_eq!(back.iter_values_for_field("a"), vec![Value::I64(3)]);
    assert!(back.same(&doc));
}

#[test]
fn a_date_after_1970_comes_back_from_json_text() {
    let mut doc = Document::new();
    doc.add_date("when".to_string(), 1_705_312_800_000);
    let text = serde_json::to_string(&to_serde(&doc.to_wire())).unwrap();
    assert_eq!(text, "{\"when\":[{\"Date\":1705312800}]}");
    let back = Document::from_wire(&from_serde(&serde_json::from_str(&text).unwrap())).unwrap();
    assert_eq!(back.iter_values_for_field("when"), vec![Value::Date(1_705_312_800)]);
}

#[test]
fn every_kind_of_value_comes_back_from_json_text() {
    let doc = document_of_every_kind();
    let wire = doc.to_wire();
    assert_eq!(through_json_text(&wire), wire);
    assert_eq!(wire.carry(), wire);
    let back = Document::from_wire(&through_json_text(&wire)).unwrap();
    assert!(back.same(&doc));
    assert_eq!(back, doc);
    assert_eq!(back.iter_values_for_field("n"), doc.iter_values_for_field("n"));
}

#[test]
fn a_wire_form_written_with_signs_is_read_too() {
    let json = Json::Object(vec![(
        "a".to_string(),
        Json::Array(vec![
            Json::Object(vec![("I64".to_string(), Json::Signed(3))]),
            Json::Object(vec![("Date".to_string(), Json::Signed(3))]),
        ]),
    )]);
    let doc = Document::from_wire(&json).unwrap();
    assert_eq!(doc.iter_values_for_field("a"), vec![Value::I64(3), Value::Date(3)]);
    assert_eq!(Document::from_wire(&json.carry()).unwrap(), doc);
}

#[test]
fn what_is_no_document_on_the_wire_is_refused() {
    for json in [
        Json::Null,
        Json::Array(vec![]),
        Json::Object(vec![("f".to_string(), Json::Unsigned(1))]),
        Json::Object(vec![("f".to_string(), Json::Array(vec![Json::Unsigned(1)]))]),
    ] {
        let error = Document::from_wire(&json).unwrap_err();
        assert_eq!(error.kind, ErrorKind::InvalidWire);
        assert_eq!(error.status(), Status::InvalidArg);
    }
}
