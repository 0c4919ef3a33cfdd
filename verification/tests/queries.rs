use tantivy_bridge::error::{ErrorKind, Status};
use tantivy_bridge::host::HostValue;
use tantivy_bridge::query::{supports_range, MoreLikeThis, Occur, Query, RangeBound};
use tantivy_bridge::schema::{FieldType, IndexRecordOption, Schema};
use tantivy_bridge::schemabuilder::SchemaBuilder;
use tantivy_bridge::searcher::DocAddress;
use tantivy_bridge::term::Term;

fn schema_of_every_type() -> Schema {
    let mut builder = SchemaBuilder::new();
    builder.add_text_field("title", None).unwrap();
    builder.add_unsigned_field("year", None).unwrap();
    builder.add_integer_field("delta", None).unwrap();
    builder.add_float_field("score", None).unwrap();
    builder.add_boolean_field("draft", None).unwrap();
    builder.add_date_field("when", None).unwrap();
    builder.add_facet_field("category").unwrap();
    builder.add_bytes_field("blob", None).unwrap();
    builder.add_json_field("attrs", None).unwrap();
    builder.add_ip_addr_field("addr", None).unwrap();
    builder.build().unwrap()
}

fn number(n: f64) -> HostValue {
    HostValue::Number(n.to_bits())
}

fn text(s: &str) -> HostValue {
    HostValue::Str(s.to_string())
}

fn name_of(field_type: FieldType) -> &'static str {
    match field_type {
        FieldType::Str => "title",
        FieldType::U64 => "year",
        FieldType::I64 => "delta",
        FieldType::F64 => "score",
        FieldType::Bool => "draft",
        FieldType::Date => "when",
        FieldType::Facet => "category",
        FieldType::Bytes => "blob",
        FieldType::JsonObject => "attrs",
        FieldType::IpAddr => "addr",
    }
}

#[test]
fn term_query_defaults_to_positions() {
    let schema = schema_of_every_type();
    let query = Query::term_query(&schema, "title", &text("sea"), None).unwrap();
    assert_eq!(
        query,
        Query::Term {
            term: Term::from_field_text(0, "sea"),
            index_option: IndexRecordOption::WithFreqsAndPositions,
        }
    );
}

#[test]
fn term_query_takes_the_three_index_options() {
    let schema = schema_of_every_type();
    for (name, option) in [
        ("basic", IndexRecordOption::Basic),
        ("freq", IndexRecordOption::WithFreqs),
        ("position", IndexRecordOption::WithFreqsAndPositions),
    ] {
        let query = Query::term_query(&schema, "year", &number(5.0), Some(name)).unwrap();
        assert_eq!(
            query,
            Query::Term { term: Term::from_field_u64(1, 5), index_option: option }
        );
    }
}

#[test]
fn term_query_refuses_another_index_option() {
    let schema = schema_of_every_type();
    for bad in ["", "Position", "positions", "all"] {
        let error = Query::term_query(&schema, "title", &text("sea"), Some(bad)).unwrap_err();
        assert_eq!(error.kind, ErrorKind::InvalidIndexOption);
        assert_eq!(error.status(), Status::InvalidArg);
    }
}

#[test]
fn term_query_reports_the_term_error_first() {
    let schema = schema_of_every_type();
    let error = Query::term_query(&schema, "nope", &text("sea"), Some("bad")).unwrap_err();
    assert_eq!(error.kind, ErrorKind::FieldDoesNotExist);
}

#[test]
fn term_set_query_builds_every_term() {
    let schema = schema_of_every_type();
    let query =
        Query::term_set_query(&schema, "year", &vec![number(1.0), number(2.0)]).unwrap();
    assert_eq!(
        query,
        Query::TermSet { terms: vec![Term::from_field_u64(1, 1), Term::from_field_u64(1, 2)] }
    );
    assert_eq!(
        Query::term_set_query(&schema, "year", &vec![]).unwrap(),
        Query::TermSet { terms: vec![] }
    );
    let error =
        Query::term_set_query(&schema, "year", &vec![number(1.0), text("x")]).unwrap_err();
    assert_eq!(error.kind, ErrorKind::TypeMismatch(FieldType::U64));
}

#[test]
fn all_query_matches_everything() {
    assert_eq!(Query::all_query().unwrap(), Query::All);
}

#[test]
fn fuzzy_term_query_has_its_defaults() {
    let schema = schema_of_every_type();
    assert_eq!(
        Query::fuzzy_term_query(&schema, "title", "see", None, None, None).unwrap(),
        Query::Fuzzy {
            term: Term::from_field_text(0, "see"),
            distance: 1,
            transposition_cost_one: true,
            prefix: false,
        }
    );
    assert_eq!(
        Query::fuzzy_term_query(&schema, "year", "19", Some(2), Some(false), Some(true)).unwrap(),
        Query::Fuzzy {
            term: Term::from_field_text(1, "19"),
            distance: 2,
            transposition_cost_one: false,
            prefix: true,
        }
    );
    let error = Query::fuzzy_term_query(&schema, "nope", "x", None, None, None).unwrap_err();
    assert_eq!(error.kind, ErrorKind::FieldDoesNotExist);
    assert_eq!(error.subject, "nope");
}

#[test]
fn phrase_query_puts_each_word_at_its_position() {
    let schema = schema_of_every_type();
    let words = vec![text("old"), text("man"), text("sea")];
    assert_eq!(
        Query::phrase_query(&schema, "title", &words, None).unwrap(),
        Query::Phrase {
            words: vec![
                (0, Term::from_field_text(0, "old")),
                (1, Term::from_field_text(0, "man")),
                (2, Term::from_field_text(0, "sea")),
            ],
            slop: 0,
        }
    );
    assert_eq!(
        Query::phrase_query(&schema, "title", &words[..2].to_vec(), Some(3)).unwrap(),
        Query::Phrase {
            words: vec![
                (0, Term::from_field_text(0, "old")),
                (1, Term::from_field_text(0, "man")),
            ],
            slop: 3,
        }
    );
}

#[test]
fn phrase_query_without_words_fails() {
    let schema = schema_of_every_type();
    let error = Query::phrase_query(&schema, "title", &vec![], None).unwrap_err();
    assert_eq!(error.kind, ErrorKind::EmptyPhrase);
    assert_eq!(error.status(), Status::InvalidArg);
}

#[test]
fn phrase_query_with_one_word_fails() {
    let schema = schema_of_every_type();
    let error = Query::phrase_query(&schema, "title", &vec![text("alone")], None).unwrap_err();
    assert_eq!(error.kind, ErrorKind::PhraseTooShort);
    assert_eq!(error.status(), Status::InvalidArg);
}

#[test]
fn phrase_query_reports_a_bad_word() {
    let schema = schema_of_every_type();
    let error =
        Query::phrase_query(&schema, "title", &vec![text("a"), number(1.0)], None).unwrap_err();
    assert_eq!(error.kind, ErrorKind::TypeMismatch(FieldType::Str));
}

#[test]
fn boolean_query_keeps_its_clauses() {
    let schema = schema_of_every_type();
    let a = Query::term_query(&schema, "title", &text("a"), None).unwrap();
    let b = Query::all_query().unwrap();
    let clauses = vec![(Occur::Must, a), (Occur::MustNot, b)];
    let query = Query::boolean_query(&clauses).unwrap();
    assert_eq!(query, Query::Boolean { clauses: clauses });
    assert_eq!(
        Query::boolean_query(&vec![]).unwrap(),
        Query::Boolean { clauses: vec![] }
    );
}

#[test]
fn composites_own_copies_of_their_children() {
    let child = Query::all_query().unwrap();
    let boosted = Query::boost_query(&child, 2.0f64.to_bits()).unwrap();
    assert_eq!(
        boosted,
        Query::Boost { query: Box::new(Query::All), boost: 2.0f64.to_bits() }
    );
    let constant = Query::const_score_query(&boosted, 1.5f64.to_bits()).unwrap();
    assert_eq!(
        constant,
        Query::ConstScore { query: Box::new(boosted.duplicate()), score: 1.5f64.to_bits() }
    );
    let dismax = Query::disjunction_max_query(
        &vec![child.duplicate(), constant.duplicate()],
        Some(0.3f64.to_bits()),
    )
    .unwrap();
    assert_eq!(
        dismax,
        Query::DisjunctionMax {
            disjuncts: vec![child, constant],
            tie_breaker: Some(0.3f64.to_bits()),
        }
    );
    assert_eq!(dismax.duplicate(), dismax);
    assert_eq!(
        Query::disjunction_max_query(&vec![], None).unwrap(),
        Query::DisjunctionMax { disjuncts: vec![], tie_breaker: None }
    );
}

#[test]
fn regex_query_checks_the_pattern() {
    let schema = schema_of_every_type();
    assert_eq!(
        Query::regex_query(&schema, "title", "s.a+").unwrap(),
        Query::Regex { field: 0, pattern: "s.a+".to_string() }
    );
    let error = Query::regex_query(&schema, "title", "s(a").unwrap_err();
    assert_eq!(error.kind, ErrorKind::InvalidRegex);
    assert_eq!(error.status(), Status::GenericFailure);
    assert!(!error.subject.is_empty());
    let error = Query::regex_query(&schema, "nope", "s(a").unwrap_err();
    assert_eq!(error.kind, ErrorKind::FieldDoesNotExist);
}

#[test]
fn more_like_this_query_keeps_what_is_given() {
    let address = DocAddress { segment_ord: 1, doc: 2 };
    assert_eq!(
        Query::more_like_this_query(address, None, None, None, None, None, None, None, None)
            .unwrap(),
        Query::MoreLikeThis {
            params: MoreLikeThis {
                doc_address: address,
                min_doc_frequency: None,
                max_doc_frequency: None,
                min_term_frequency: None,
                max_query_terms: None,
                min_word_length: None,
                max_word_length: None,
                boost_factor: None,
                stop_words: None,
            }
        }
    );
    assert_eq!(
        Query::more_like_this_query(
            address,
            Some(2.9f64.to_bits()),
            Some((-1.0f64).to_bits()),
            Some(3),
            Some(4),
            Some(5),
            Some(6),
            Some(1.5f64.to_bits()),
            Some(vec!["the".to_string()]),
        )
        .unwrap(),
        Query::MoreLikeThis {
            params: MoreLikeThis {
                doc_address: address,
                min_doc_frequency: Some(2),
                max_doc_frequency: Some(0),
                min_term_frequency: Some(3),
                max_query_terms: Some(4),
                min_word_length: Some(5),
                max_word_length: Some(6),
                boost_factor: Some(1.5f64.to_bits()),
                stop_words: Some(vec!["the".to_string()]),
            }
        }
    );
}

#[test]
fn range_query_is_refused_on_types_without_an_order() {
    let schema = schema_of_every_type();
    for field_type in [
        FieldType::Str,
        FieldType::Bool,
        FieldType::Facet,
        FieldType::Bytes,
        FieldType::JsonObject,
    ] {
        assert!(!supports_range(field_type));
        for name in [name_of(field_type), "no such field"] {
            let error = Query::range_query(
                &schema,
                name,
                field_type,
                &HostValue::Opaque,
                &HostValue::Opaque,
                None,
                None,
            )
            .unwrap_err();
            assert_eq!(error.kind, ErrorKind::UnsupportedRangeType(field_type));
            assert_eq!(error.status(), Status::InvalidArg);
        }
    }
}

#[test]
fn range_query_is_built_on_types_with_an_order() {
    let schema = schema_of_every_type();
    let bounds = [
        (FieldType::U64, number(1.0), number(10.0)),
        (FieldType::I64, number(-5.0), number(5.0)),
        (FieldType::F64, number(0.5), number(1.5)),
        (FieldType::Date, number(0.0), text("2024-01-15T10:00:00Z")),
        (FieldType::IpAddr, text("10.0.0.0"), text("10.255.255.255")),
    ];
    for (field_type, low, high) in bounds {
        assert!(supports_range(field_type));
        let query = Query::range_query(
            &schema,
            name_of(field_type),
            field_type,
            &low,
            &high,
            None,
            None,
        );
        assert!(matches!(query, Ok(Query::Range { .. })), "{field_type:?}");
    }
}

#[test]
fn range_bounds_are_included_unless_told_otherwise() {
    let schema = schema_of_every_type();
    let low = Term::from_field_u64(1, 1999);
    let high = Term::from_field_u64(1, 2010);
    assert_eq!(
        Query::range_query(
            &schema,
            "year",
            FieldType::U64,
            &number(1999.0),
            &number(2010.0),
            None,
            None
        )
        .unwrap(),
        Query::Range {
            lower: RangeBound::Included(low.duplicate()),
            upper: RangeBound::Included(high.duplicate()),
        }
    );
    assert_eq!(
        Query::range_query(
            &schema,
            "year",
            FieldType::U64,
            &number(1999.0),
            &number(2010.0),
            Some(false),
            Some(true)
        )
        .unwrap(),
        Query::Range {
            lower: RangeBound::Excluded(low.duplicate()),
            upper: RangeBound::Included(high.duplicate()),
        }
    );
    assert_eq!(
        Query::range_query(
            &schema,
            "year",
            FieldType::U64,
            &number(1999.0),
            &number(2010.0),
            Some(true),
            Some(false)
        )
        .unwrap(),
        Query::Range { lower: RangeBound::Included(low), upper: RangeBound::Excluded(high) }
    );
}

#[test]
fn range_query_refuses_a_negative_bound_on_an_unsigned_field() {
    let schema = schema_of_every_type();
    let error = Query::range_query(
        &schema,
        "year",
        FieldType::U64,
        &number(-5.0),
        &number(5.0),
        None,
        None,
    )
    .unwrap_err();
    assert_eq!(error.kind, ErrorKind::TypeMismatch(FieldType::U64));
    assert_eq!(error.subject, "year");
    let error = Query::term_query(&schema, "year", &number(-5.0), None).unwrap_err();
    assert_eq!(error.kind, ErrorKind::TypeMismatch(FieldType::U64));
}

#[test]
fn range_query_needs_the_declared_type() {
    let schema = schema_of_every_type();
    let error = Query::range_query(
        &schema,
        "year",
        FieldType::I64,
        &number(1.0),
        &number(2.0),
        None,
        None,
    )
    .unwrap_err();
    assert_eq!(error.kind, ErrorKind::TypeMismatch(FieldType::U64));
    assert_eq!(error.subject, "year");
    let error = Query::range_query(
        &schema,
        "nope",
        FieldType::I64,
        &number(1.0),
        &number(2.0),
        None,
        None,
    )
    .unwrap_err();
    assert_eq!(error.kind, ErrorKind::FieldDoesNotExist);
    let error = Query::range_query(
        &schema,
        "year",
        FieldType::U64,
        &number(1.0),
        &text("two"),
        None,
        None,
    )
    .unwrap_err();
    assert_eq!(error.kind, ErrorKind::TypeMismatch(FieldType::U64));
}
