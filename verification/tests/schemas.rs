use tantivy_bridge::error::{ErrorKind, Status};
use tantivy_bridge::schema::{
    is_valid_field_name, parse_index_option, FieldEntry, FieldOptions, FieldType,
    IndexRecordOption, NumericOptions, Schema, TextOptions,
};
use tantivy_bridge::schemabuilder::{
    build_bytes_options, build_date_options, build_ip_addr_options, build_numeric_options,
    build_text_options, BytesFieldOptions, IpAddrFieldOptions, NumericFieldOptions,
    SchemaBuilder, TextFieldOptions,
};
use tantivy_bridge::{get_field, get_version};

fn text_options(
    stored: Option<bool>,
    fast: Option<bool>,
    tokenizer_name: Option<&str>,
    index_option: Option<&str>,
) -> TextFieldOptions {
    TextFieldOptions {
        stored,
        fast,
        tokenizer_name: tokenizer_name.map(|s| s.to_string()),
        index_option: index_option.map(|s| s.to_string()),
    }
}

fn flags(stored: bool, indexed: bool, fast: bool) -> NumericOptions {
    NumericOptions { stored, indexed, fast }
}

#[test]
fn version_is_reported() {
    assert_eq!(get_version(), "0.1.0");
}

#[test]
fn field_names_need_a_first_character_that_is_no_dash() {
    assert!(is_valid_field_name("title"));
    assert!(is_valid_field_name("_"));
    assert!(is_valid_field_name("a-b"));
    assert!(is_valid_field_name("with space"));
    assert!(!is_valid_field_name(""));
    assert!(!is_valid_field_name("-title"));
    assert!(SchemaBuilder::is_valid_field_name("ok"));
    assert!(!SchemaBuilder::is_valid_field_name("-no"));
    for name in ["title", "", "-x", "ü", "a.b"] {
        assert_eq!(is_valid_field_name(name), tantivy::schema::is_valid_field_name(name));
    }
}

#[test]
fn index_options_have_three_names() {
    assert_eq!(parse_index_option("basic"), Some(IndexRecordOption::Basic));
    assert_eq!(parse_index_option("freq"), Some(IndexRecordOption::WithFreqs));
    assert_eq!(
        parse_index_option("position"),
        Some(IndexRecordOption::WithFreqsAndPositions)
    );
    assert_eq!(parse_index_option("Basic"), None);
    assert_eq!(parse_index_option(""), None);
}

#[test]
fn numeric_options_default_to_nothing() {
    assert_eq!(build_numeric_options(None), flags(false, false, false));
    assert_eq!(
        build_numeric_options(Some(NumericFieldOptions {
            stored: None,
            indexed: None,
            fast: None
        })),
        flags(false, false, false)
    );
    assert_eq!(
        build_numeric_options(Some(NumericFieldOptions {
            stored: Some(true),
            indexed: Some(false),
            fast: Some(true)
        })),
        flags(true, false, true)
    );
    assert_eq!(
        build_date_options(Some(NumericFieldOptions {
            stored: None,
            indexed: Some(true),
            fast: None
        })),
        flags(false, true, false)
    );
    assert_eq!(
        build_bytes_options(Some(BytesFieldOptions {
            stored: Some(true),
            indexed: None,
            fast: None
        })),
        flags(true, false, false)
    );
    assert_eq!(
        build_ip_addr_options(Some(IpAddrFieldOptions {
            stored: None,
            indexed: None,
            fast: Some(true)
        })),
        flags(false, false, true)
    );
    assert_eq!(build_bytes_options(None), flags(false, false, false));
    assert_eq!(build_ip_addr_options(None), flags(false, false, false));
}

#[test]
fn text_options_have_their_defaults() {
    assert_eq!(
        build_text_options(None).unwrap(),
        TextOptions {
            stored: false,
            tokenizer: "default".to_string(),
            index_option: IndexRecordOption::WithFreqsAndPositions,
            fast: false,
            fast_tokenizer: None,
        }
    );
    assert_eq!(
        build_text_options(Some(&text_options(None, None, None, None))).unwrap(),
        build_text_options(None).unwrap()
    );
}

#[test]
fn fast_text_is_normalized_by_its_tokenizer_unless_raw() {
    assert_eq!(
        build_text_options(Some(&text_options(Some(true), Some(true), Some("en_stem"), Some("freq"))))
            .unwrap(),
        TextOptions {
            stored: true,
            tokenizer: "en_stem".to_string(),
            index_option: IndexRecordOption::WithFreqs,
            fast: true,
            fast_tokenizer: Some("en_stem".to_string()),
        }
    );
    assert_eq!(
        build_text_options(Some(&text_options(None, Some(true), Some("raw"), Some("basic"))))
            .unwrap(),
        TextOptions {
            stored: false,
            tokenizer: "raw".to_string(),
            index_option: IndexRecordOption::Basic,
            fast: true,
            fast_tokenizer: None,
        }
    );
    assert_eq!(
        build_text_options(Some(&text_options(None, Some(true), None, None)))
            .unwrap()
            .fast_tokenizer,
        Some("default".to_string())
    );
    assert_eq!(
        build_text_options(Some(&text_options(None, Some(false), Some("simple"), None)))
            .unwrap()
            .fast_tokenizer,
        None
    );
}

#[test]
fn text_options_refuse_another_index_option() {
    let error =
        build_text_options(Some(&text_options(None, None, None, Some("everything")))).unwrap_err();
    assert_eq!(error.kind, ErrorKind::InvalidIndexOption);
    assert_eq!(error.status(), Status::InvalidArg);
}

#[test]
fn builder_declares_fields_in_order() {
    let mut builder = SchemaBuilder::new();
    builder.add_text_field("title", Some(&text_options(Some(true), None, None, None))).unwrap();
    builder.add_integer_field("i", None).unwrap();
    builder.add_unsigned_field("u", None).unwrap();
    builder.add_float_field("f", None).unwrap();
    builder.add_boolean_field("b", None).unwrap();
    builder.add_date_field("d", None).unwrap();
    builder.add_json_field("j", None).unwrap();
    builder.add_facet_field("c").unwrap();
    builder.add_bytes_field("y", None).unwrap();
    builder.add_ip_addr_field("a", None).unwrap();
    let schema = builder.build().unwrap();
    assert_eq!(schema.num_fields(), 10);
    assert_eq!(
        schema.field_names(),
        vec!["title", "i", "u", "f", "b", "d", "j", "c", "y", "a"]
    );
    let types = [
        FieldType::Str,
        FieldType::I64,
        FieldType::U64,
        FieldType::F64,
        FieldType::Bool,
        FieldType::Date,
        FieldType::JsonObject,
        FieldType::Facet,
        FieldType::Bytes,
        FieldType::IpAddr,
    ];
    for (id, name) in schema.field_names().iter().enumerate() {
        assert_eq!(schema.get_field(name).unwrap(), id as u32);
        assert_eq!(get_field(&schema, name).unwrap(), id as u32);
        assert_eq!(schema.get_field_type(name).unwrap(), types[id]);
        assert!(schema.has_field(name));
        assert_eq!(schema.get_field_entry(id as u32).unwrap().name, *name);
    }
    assert!(schema.get_field_entry(10).is_none());
    assert_eq!(
        *schema.get_field_entry(0).unwrap(),
        FieldEntry {
            name: "title".to_string(),
            field_type: FieldType::Str,
            options: FieldOptions::Text(TextOptions {
                stored: true,
                tokenizer: "default".to_string(),
                index_option: IndexRecordOption::WithFreqsAndPositions,
                fast: false,
                fast_tokenizer: None,
            }),
        }
    );
    assert_eq!(
        schema.get_field_entry(7).unwrap().options,
        FieldOptions::Numeric(flags(false, true, false))
    );
    assert!(schema.get_field_entry(0).unwrap().is_indexed());
    assert!(schema.get_field_entry(7).unwrap().is_indexed());
    assert!(!schema.get_field_entry(1).unwrap().is_indexed());
    assert!(!schema.get_field_entry(1).unwrap().is_fast());
}

#[test]
fn unknown_fields_are_reported() {
    let mut builder = SchemaBuilder::new();
    builder.add_text_field("title", None).unwrap();
    let schema = builder.build().unwrap();
    assert!(!schema.has_field("body"));
    let error = schema.get_field("body").unwrap_err();
    assert_eq!(error.kind, ErrorKind::FieldDoesNotExist);
    assert_eq!(error.subject, "body");
    assert_eq!(error.status(), Status::InvalidArg);
    let error = schema.get_field_type("body").unwrap_err();
    assert_eq!(error.kind, ErrorKind::FieldDoesNotExist);
    assert_eq!(get_field(&schema, "body").unwrap_err().kind, ErrorKind::FieldDoesNotExist);
}

#[test]
fn builder_refuses_bad_and_repeated_names() {
    let mut builder = SchemaBuilder::new();
    builder.add_text_field("title", None).unwrap();
    let error = builder.add_unsigned_field("title", None).unwrap_err();
    assert_eq!(error.kind, ErrorKind::DuplicateField);
    assert_eq!(error.subject, "title");
    assert_eq!(error.status(), Status::InvalidArg);
    let error = builder.add_text_field("", None).unwrap_err();
    assert_eq!(error.kind, ErrorKind::InvalidFieldName);
    let error = builder.add_facet_field("-x").unwrap_err();
    assert_eq!(error.kind, ErrorKind::InvalidFieldName);
    assert_eq!(error.subject, "-x");
    let error = builder
        .add_json_field("j", Some(&text_options(None, None, None, Some("wrong"))))
        .unwrap_err();
    assert_eq!(error.kind, ErrorKind::InvalidIndexOption);
    let schema = builder.build().unwrap();
    assert_eq!(schema.field_names(), vec!["title"]);
}

#[test]
fn a_built_builder_takes_nothing_more() {
    let mut builder = SchemaBuilder::new();
    builder.add_text_field("title", None).unwrap();
    builder.build().unwrap();
    for _ in 0..2 {
        let errors = [
            builder.add_text_field("a", None).unwrap_err(),
            builder.add_integer_field("a", None).unwrap_err(),
            builder.add_unsigned_field("a", None).unwrap_err(),
            builder.add_float_field("a", None).unwrap_err(),
            builder.add_boolean_field("a", None).unwrap_err(),
            builder.add_date_field("a", None).unwrap_err(),
            builder.add_json_field("a", None).unwrap_err(),
            builder.add_facet_field("a").unwrap_err(),
            builder.add_bytes_field("a", None).unwrap_err(),
            builder.add_ip_addr_field("a", None).unwrap_err(),
            builder.add_text_field("", Some(&text_options(None, None, None, Some("bad"))))
                .unwrap_err(),
            builder.build().unwrap_err(),
        ];
        for error in errors {
            assert_eq!(error.kind, ErrorKind::SchemaBuilderConsumed);
            assert_eq!(error.status(), Status::InvalidArg);
        }
    }
}

#[test]
fn schema_new_checks_its_entries() {
    let entry = |name: &str| FieldEntry {
        name: name.to_string(),
        field_type: FieldType::U64,
        options: FieldOptions::Numeric(flags(false, false, false)),
    };
    assert!(Schema::new(vec![]).is_some());
    assert!(Schema::new(vec![entry("a"), entry("b")]).is_some());
    assert!(Schema::new(vec![entry("a"), entry("b"), entry("a")]).is_none());
    assert!(Schema::new(vec![entry("")]).is_none());
    assert!(Schema::new(vec![entry("a"), entry("-b")]).is_none());
    let schema = Schema::new(vec![entry("a"), entry("b")]).unwrap();
    assert_eq!(schema.duplicate(), schema);
    assert_eq!(schema.clone().field_names(), vec!["a", "b"]);
}
