use tantivy_bridge::coerce::{
    extract_value, extract_value_for_type, extract_value_single_or_list,
    extract_value_single_or_list_for_type,
};
use tantivy_bridge::error::{ErrorKind, Status};
use tantivy_bridge::facet::Facet;
use tantivy_bridge::host::HostValue;
use tantivy_bridge::schema::FieldType;
use tantivy_bridge::value::Value;

fn number(n: f64) -> HostValue {
    HostValue::Number(n.to_bits())
}

fn text(s: &str) -> HostValue {
    HostValue::Str(s.to_string())
}

fn entry(key: &str, value: HostValue) -> (String, HostValue) {
    (key.to_string(), value)
}

const ALL_TYPES: [FieldType; 10] = [
    FieldType::Str,
    FieldType::U64,
    FieldType::I64,
    FieldType::F64,
    FieldType::Bool,
    FieldType::Date,
    FieldType::Facet,
    FieldType::Bytes,
    FieldType::JsonObject,
    FieldType::IpAddr,
];

#[test]
fn text_is_kept_as_text() {
    assert_eq!(extract_value(&text("hello")).unwrap(), Value::Str("hello".to_string()));
    assert_eq!(extract_value(&text("")).unwrap(), Value::Str(String::new()));
    assert_eq!(extract_value(&text("3")).unwrap(), Value::Str("3".to_string()));
}

#[test]
fn booleans_are_kept_as_booleans() {
    assert_eq!(extract_value(&HostValue::Bool(true)).unwrap(), Value::Bool(true));
    assert_eq!(extract_value(&HostValue::Bool(false)).unwrap(), Value::Bool(false));
}

#[test]
fn numbers_are_classified() {
    assert_eq!(extract_value(&number(3.0)).unwrap(), Value::U64(3));
    assert_eq!(extract_value(&number(-3.0)).unwrap(), Value::I64(-3));
    assert_eq!(extract_value(&number(3.5)).unwrap(), Value::F64(3.5f64.to_bits()));
    assert_eq!(
        extract_value(&number(f64::NAN)).unwrap(),
        Value::F64(f64::NAN.to_bits())
    );
}

#[test]
fn buffers_become_bytes() {
    assert_eq!(
        extract_value(&HostValue::Buffer(vec![0, 1, 255])).unwrap(),
        Value::Bytes(vec![0, 1, 255])
    );
}

#[test]
fn arrays_are_coerced_item_by_item() {
    let host = HostValue::Array(vec![number(1.0), text("a"), HostValue::Array(vec![number(-1.0)])]);
    assert_eq!(
        extract_value(&host).unwrap(),
        Value::Array(vec![
            Value::U64(1),
            Value::Str("a".to_string()),
            Value::Array(vec![Value::I64(-1)]),
        ])
    );
}

#[test]
fn objects_are_coerced_entry_by_entry_in_their_order() {
    let host = HostValue::Object(vec![
        entry("b", number(2.0)),
        entry("a", HostValue::Null),
        entry("b", HostValue::Object(vec![entry("deep", number(0.5))])),
        entry("list", HostValue::Array(vec![HostValue::Null, text("x")])),
    ]);
    assert_eq!(
        extract_value(&host).unwrap(),
        Value::Object(vec![
            ("b".to_string(), Value::U64(2)),
            ("a".to_string(), Value::Null),
            (
                "b".to_string(),
                Value::Object(vec![("deep".to_string(), Value::F64(0.5f64.to_bits()))])
            ),
            (
                "list".to_string(),
                Value::Array(vec![Value::Null, Value::Str("x".to_string())])
            ),
        ])
    );
}

#[test]
fn unsupported_kinds_are_invalid_arguments() {
    for host in [
        HostValue::Undefined,
        HostValue::Null,
        HostValue::Opaque,
        HostValue::Array(vec![number(1.0), HostValue::Opaque]),
        HostValue::Array(vec![HostValue::Null]),
        HostValue::Object(vec![entry("f", HostValue::Opaque)]),
        HostValue::Object(vec![entry("f", HostValue::Undefined)]),
    ] {
        let error = extract_value(&host).unwrap_err();
        assert_eq!(error.kind, ErrorKind::UnsupportedValue);
        assert_eq!(error.subject, "");
        assert_eq!(error.status(), Status::InvalidArg);
    }
}

#[test]
fn each_type_takes_its_own_kind() {
    assert_eq!(
        extract_value_for_type(&text("a"), FieldType::Str, "f").unwrap(),
        Value::Str("a".to_string())
    );
    assert_eq!(
        extract_value_for_type(&number(7.0), FieldType::U64, "f").unwrap(),
        Value::U64(7)
    );
    assert_eq!(
        extract_value_for_type(&number(-7.0), FieldType::I64, "f").unwrap(),
        Value::I64(-7)
    );
    assert_eq!(
        extract_value_for_type(&number(3.0), FieldType::F64, "f").unwrap(),
        Value::F64(3.0f64.to_bits())
    );
    assert_eq!(
        extract_value_for_type(&HostValue::Bool(true), FieldType::Bool, "f").unwrap(),
        Value::Bool(true)
    );
    assert_eq!(
        extract_value_for_type(&text("/a/b"), FieldType::Facet, "f").unwrap(),
        Value::Facet(Facet::from_text("/a/b").unwrap())
    );
    assert_eq!(
        extract_value_for_type(&HostValue::Buffer(vec![9]), FieldType::Bytes, "f").unwrap(),
        Value::Bytes(vec![9])
    );
    assert_eq!(
        extract_value_for_type(
            &HostValue::Object(vec![entry("n", number(1.0)), entry("z", HostValue::Null)]),
            FieldType::JsonObject,
            "f"
        )
        .unwrap(),
        Value::Object(vec![("n".to_string(), Value::U64(1)), ("z".to_string(), Value::Null)])
    );
}

#[test]
fn every_other_kind_is_a_type_mismatch() {
    let hosts = [
        text("1"),
        number(1.0),
        HostValue::Bool(true),
        HostValue::Buffer(vec![1]),
        HostValue::Array(vec![]),
        HostValue::Object(vec![]),
        HostValue::Null,
        HostValue::Undefined,
        HostValue::Opaque,
    ];
    for field_type in ALL_TYPES {
        for host in &hosts {
            let taken = match (field_type, host) {
                (FieldType::Str, HostValue::Str(_)) => true,
                (FieldType::U64 | FieldType::I64 | FieldType::F64, HostValue::Number(_)) => true,
                (FieldType::Bool, HostValue::Bool(_)) => true,
                (FieldType::Date, HostValue::Number(_)) => true,
                (FieldType::Bytes, HostValue::Buffer(_)) => true,
                (FieldType::JsonObject, HostValue::Object(_)) => true,
                (FieldType::Date | FieldType::Facet | FieldType::IpAddr, HostValue::Str(_)) => {
                    continue
                }
                _ => false,
            };
            let outcome = extract_value_for_type(host, field_type, "the_field");
            if taken {
                assert!(outcome.is_ok(), "{field_type:?} takes {host:?}");
            } else if field_type == FieldType::Bytes {
                let error = outcome.unwrap_err();
                assert_eq!(error.kind, ErrorKind::ExpectedBuffer);
                assert_eq!(error.status(), Status::InvalidArg);
            } else {
                let error = outcome.unwrap_err();
                assert_eq!(error.kind, ErrorKind::TypeMismatch(field_type));
                assert_eq!(error.subject, "the_field");
                assert_eq!(error.status(), Status::TypeMismatch);
            }
        }
    }
}

#[test]
fn a_negative_number_is_no_unsigned_integer() {
    let error = extract_value_for_type(&number(-5.0), FieldType::U64, "n").unwrap_err();
    assert_eq!(error.kind, ErrorKind::TypeMismatch(FieldType::U64));
    assert_eq!(error.subject, "n");
    assert_eq!(error.status(), Status::TypeMismatch);
    assert_eq!(
        extract_value_for_type(&number(-0.0), FieldType::U64, "n").unwrap(),
        Value::U64(0)
    );
}

#[test]
fn integer_fields_take_whole_numbers_of_their_range() {
    for n in [0.5, 7.9, -7.9, f64::NAN, f64::INFINITY, f64::NEG_INFINITY, 1e300, -1e300] {
        for field_type in [FieldType::U64, FieldType::I64, FieldType::Date] {
            let error = extract_value_for_type(&number(n), field_type, "n").unwrap_err();
            assert_eq!(error.kind, ErrorKind::TypeMismatch(field_type), "{n:?}");
            assert_eq!(error.subject, "n");
        }
        assert_eq!(
            extract_value_for_type(&number(n), FieldType::F64, "n").unwrap(),
            Value::F64(n.to_bits())
        );
    }
    assert_eq!(
        extract_value_for_type(&number(18446744073709549568.0), FieldType::U64, "n").unwrap(),
        Value::U64(18446744073709549568)
    );
    let error =
        extract_value_for_type(&number(18446744073709551616.0), FieldType::U64, "n").unwrap_err();
    assert_eq!(error.kind, ErrorKind::TypeMismatch(FieldType::U64));
    assert_eq!(
        extract_value_for_type(&number(18446744073709549568.0), FieldType::I64, "n")
            .unwrap_err()
            .kind,
        ErrorKind::TypeMismatch(FieldType::I64)
    );
    assert_eq!(
        extract_value_for_type(&number(-9223372036854775808.0), FieldType::I64, "n").unwrap(),
        Value::I64(i64::MIN)
    );
    let host = HostValue::Array(vec![number(1.0), number(-1.0)]);
    let error = extract_value_single_or_list_for_type(&host, FieldType::U64, "n").unwrap_err();
    assert_eq!(error.kind, ErrorKind::TypeMismatch(FieldType::U64));
}

#[test]
fn strings_are_not_numbers_or_booleans() {
    for field_type in [FieldType::U64, FieldType::I64, FieldType::F64, FieldType::Bool] {
        let error = extract_value_for_type(&text("1"), field_type, "n").unwrap_err();
        assert_eq!(error.kind, ErrorKind::TypeMismatch(field_type));
    }
}

#[test]
fn bytes_field_refuses_an_array_of_numbers() {
    let host = HostValue::Array(vec![number(1.0), number(2.0), number(3.0)]);
    let error =
        extract_value_single_or_list_for_type(&host, FieldType::Bytes, "blob").unwrap_err();
    assert_eq!(error.kind, ErrorKind::ExpectedBuffer);
    assert_eq!(error.status(), Status::InvalidArg);
    let error = extract_value_for_type(&host, FieldType::Bytes, "blob").unwrap_err();
    assert_eq!(error.kind, ErrorKind::ExpectedBuffer);
    let error = extract_value_for_type(&text("abc"), FieldType::Bytes, "blob").unwrap_err();
    assert_eq!(error.kind, ErrorKind::ExpectedBuffer);
}

#[test]
fn bytes_field_takes_a_buffer_byte_for_byte() {
    let bytes: Vec<u8> = (0..=255).collect();
    assert_eq!(
        extract_value_single_or_list_for_type(
            &HostValue::Buffer(bytes.clone()),
            FieldType::Bytes,
            "blob"
        )
        .unwrap(),
        vec![Value::Bytes(bytes)]
    );
}

#[test]
fn date_field_takes_a_timestamp_or_milliseconds() {
    let from_text =
        extract_value_for_type(&text("2024-01-15T10:00:00Z"), FieldType::Date, "when").unwrap();
    let from_millis =
        extract_value_for_type(&number(1_705_312_800_000.0), FieldType::Date, "when").unwrap();
    assert_eq!(from_text, Value::Date(1_705_312_800));
    assert_eq!(from_millis, from_text);
}

#[test]
fn date_is_truncated_to_whole_seconds_toward_zero() {
    assert_eq!(
        extract_value_for_type(&number(1_705_312_800_999.0), FieldType::Date, "when").unwrap(),
        Value::Date(1_705_312_800)
    );
    assert_eq!(
        extract_value_for_type(&text("2024-01-15T10:00:00.999Z"), FieldType::Date, "when")
            .unwrap(),
        Value::Date(1_705_312_800)
    );
    assert_eq!(
        extract_value_for_type(&number(-1_999.0), FieldType::Date, "when").unwrap(),
        Value::Date(-1)
    );
    assert_eq!(
        extract_value_for_type(&number(-999.0), FieldType::Date, "when").unwrap(),
        Value::Date(0)
    );
    assert_eq!(
        extract_value_for_type(&text("2024-01-15T12:00:00+02:00"), FieldType::Date, "when")
            .unwrap(),
        Value::Date(1_705_312_800)
    );
}

#[test]
fn date_text_must_be_rfc_3339() {
    for bad in ["", "yesterday", "2024-01-15", "2024-01-15 10:00:00", "1705312800"] {
        let error = extract_value_for_type(&text(bad), FieldType::Date, "when").unwrap_err();
        assert_eq!(error.kind, ErrorKind::InvalidDate);
        assert_eq!(error.subject, bad);
        assert_eq!(error.status(), Status::InvalidArg);
    }
}

#[test]
fn facet_text_must_begin_with_a_slash() {
    let error = extract_value_for_type(&text("a/b"), FieldType::Facet, "cat").unwrap_err();
    assert_eq!(error.kind, ErrorKind::InvalidFacet);
    assert_eq!(error.subject, "a/b");
    assert_eq!(error.status(), Status::InvalidArg);
}

#[test]
fn ip_field_maps_ipv4_into_ipv6() {
    assert_eq!(
        extract_value_for_type(&text("192.168.1.1"), FieldType::IpAddr, "addr").unwrap(),
        Value::IpAddr(0xffff_c0a8_0101)
    );
    assert_eq!(
        extract_value_for_type(&text("::1"), FieldType::IpAddr, "addr").unwrap(),
        Value::IpAddr(1)
    );
    assert_eq!(
        extract_value_for_type(&text("2001:db8::ff00:42:8329"), FieldType::IpAddr, "addr")
            .unwrap(),
        Value::IpAddr(0x2001_0db8_0000_0000_0000_ff00_0042_8329)
    );
}

#[test]
fn ip_text_must_be_an_address() {
    for bad in ["", "192.168.1", "192.168.1.256", "host.example", "1::2::3"] {
        let error = extract_value_for_type(&text(bad), FieldType::IpAddr, "addr").unwrap_err();
        assert_eq!(error.kind, ErrorKind::InvalidIpAddr);
        assert_eq!(error.subject, bad);
        assert_eq!(error.status(), Status::InvalidArg);
    }
}

#[test]
fn json_field_refuses_what_no_field_can_hold() {
    let host = HostValue::Object(vec![entry("ok", number(1.0)), entry("bad", HostValue::Opaque)]);
    let error = extract_value_for_type(&host, FieldType::JsonObject, "attrs").unwrap_err();
    assert_eq!(error.kind, ErrorKind::UnsupportedValue);
}

#[test]
fn a_scalar_is_a_list_of_one() {
    assert_eq!(
        extract_value_single_or_list(&number(5.0)).unwrap(),
        vec![Value::U64(5)]
    );
    assert_eq!(
        extract_value_single_or_list_for_type(&number(5.0), FieldType::I64, "n").unwrap(),
        vec![Value::I64(5)]
    );
}

#[test]
fn text_is_never_a_list_of_characters() {
    assert_eq!(
        extract_value_single_or_list(&text("abc")).unwrap(),
        vec![Value::Str("abc".to_string())]
    );
    assert_eq!(
        extract_value_single_or_list_for_type(&text("abc"), FieldType::Str, "t").unwrap(),
        vec![Value::Str("abc".to_string())]
    );
}

#[test]
fn an_array_is_the_list_of_its_items() {
    let host = HostValue::Array(vec![text("a"), text("b")]);
    assert_eq!(
        extract_value_single_or_list(&host).unwrap(),
        vec![Value::Str("a".to_string()), Value::Str("b".to_string())]
    );
    assert_eq!(
        extract_value_single_or_list_for_type(&host, FieldType::Str, "t").unwrap(),
        vec![Value::Str("a".to_string()), Value::Str("b".to_string())]
    );
    assert_eq!(
        extract_value_single_or_list(&HostValue::Array(vec![])).unwrap(),
        Vec::<Value>::new()
    );
    assert_eq!(
        extract_value_single_or_list(&HostValue::Buffer(vec![1, 2])).unwrap(),
        vec![Value::Bytes(vec![1, 2])]
    );
}

#[test]
fn the_first_bad_item_decides_the_error() {
    let host = HostValue::Array(vec![
        number(1.0),
        text("not a number"),
        HostValue::Bool(true),
    ]);
    let error = extract_value_single_or_list_for_type(&host, FieldType::U64, "n").unwrap_err();
    assert_eq!(error.kind, ErrorKind::TypeMismatch(FieldType::U64));
    let host = HostValue::Array(vec![text("2024-01-15T10:00:00Z"), text("bad"), text("worse")]);
    let error =
        extract_value_single_or_list_for_type(&host, FieldType::Date, "when").unwrap_err();
    assert_eq!(error.kind, ErrorKind::InvalidDate);
    assert_eq!(error.subject, "bad");
}

#[test]
fn values_compare_by_what_they_stand_for() {
    let a = extract_value(&HostValue::Array(vec![number(1.0), text("x")])).unwrap();
    let b = a.duplicate();
    assert!(a.same(&b));
    assert_eq!(a, b);
    assert!(!a.same(&Value::Array(vec![Value::U64(1)])));
    assert!(!Value::U64(1).same(&Value::I64(1)));
    assert!(!Value::Date(1).same(&Value::I64(1)));
    assert!(Value::Null.same(&Value::Null));
}
