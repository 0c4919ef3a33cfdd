use tantivy_bridge::parser_error::{
    AllButQueryForbiddenError, DateFormatError, ExpectedBase64Error, ExpectedBoolError,
    ExpectedFloatError, ExpectedIntError, FacetFormatError, FieldDoesNotExistError,
    FieldDoesNotHavePositionsIndexedError, FieldNotIndexedError, FloatErrorKind, IntErrorKind,
    IpFormatError, NoDefaultFieldDeclaredError, PhrasePrefixRequiresAtLeastTwoTermsError,
    RangeMustNotHavePhraseError, SyntaxError, UnknownTokenizerError, UnsupportedQueryError,
};

#[test]
fn syntax_error_message() {
    let error = SyntaxError { message: "unexpected )".to_string() };
    assert_eq!(error.inner_message(), "unexpected )");
    assert_eq!(error.to_string(), "Syntax Error: unexpected )");
    assert_eq!(error.full_message(), format!("Syntax Error: {0}", "unexpected )"));
}

#[test]
fn unsupported_query_message() {
    let error = UnsupportedQueryError { message: "nested".to_string() };
    assert_eq!(error.inner_message(), "nested");
    assert_eq!(error.to_string(), "Unsupported query: nested");
    assert_eq!(error.full_message(), error.to_string());
}

#[test]
fn field_does_not_exist_message() {
    let error = FieldDoesNotExistError { field: "titel".to_string() };
    assert_eq!(error.field(), "titel");
    assert_eq!(error.to_string(), "Field does not exist: 'titel'");
    assert_eq!(error.full_message(), error.to_string());
}

#[test]
fn expected_int_message_and_causes() {
    let kinds = [
        ("", IntErrorKind::Empty),
        ("12a", IntErrorKind::InvalidDigit),
        ("99999999999999999999999", IntErrorKind::PosOverflow),
        ("-99999999999999999999999", IntErrorKind::NegOverflow),
    ];
    for (text, kind) in kinds {
        let std_error = text.parse::<i64>().unwrap_err();
        let error = ExpectedIntError { kind };
        assert_eq!(
            error.to_string(),
            format!("Expected a valid integer: '{0:?}'", std_error)
        );
        assert_eq!(error.full_message(), error.to_string());
        assert_eq!(error.caused_by_empty(), kind == IntErrorKind::Empty);
        assert_eq!(error.caused_by_invalid_digit(), kind == IntErrorKind::InvalidDigit);
        assert_eq!(error.caused_by_pos_overflow(), kind == IntErrorKind::PosOverflow);
        assert_eq!(error.caused_by_neg_overflow(), kind == IntErrorKind::NegOverflow);
    }
    assert_eq!(
        ExpectedIntError { kind: IntErrorKind::Zero }.to_string(),
        "Expected a valid integer: 'ParseIntError { kind: Zero }'"
    );
}

#[test]
fn expected_base64_message_and_causes() {
    let error = ExpectedBase64Error { message: "InvalidByte(3, 61)".to_string() };
    assert!(error.caused_by_invalid_byte());
    assert!(!error.caused_by_invalid_length());
    assert!(!error.caused_by_invalid_last_symbol());
    assert!(!error.caused_by_invalid_padding());
    assert_eq!(error.invalid_byte_info(), None);
    assert_eq!(error.invalid_last_symbol_info(), None);
    assert_eq!(error.to_string(), "Expected base64: InvalidByte(3, 61)");
    assert_eq!(error.full_message(), error.to_string());
    assert!(ExpectedBase64Error { message: "InvalidLength(5)".to_string() }
        .caused_by_invalid_length());
    assert!(ExpectedBase64Error { message: "InvalidLastSymbol(1, 2)".to_string() }
        .caused_by_invalid_last_symbol());
    assert!(ExpectedBase64Error { message: "InvalidPadding".to_string() }
        .caused_by_invalid_padding());
    assert!(!ExpectedBase64Error { message: "Invalid".to_string() }.caused_by_invalid_byte());
}

#[test]
fn expected_float_message() {
    for (text, kind) in [("", FloatErrorKind::Empty), ("abc", FloatErrorKind::Invalid)] {
        let std_error = text.parse::<f64>().unwrap_err();
        let error = ExpectedFloatError { kind };
        assert_eq!(
            error.to_string(),
            format!("Expected a float value: '{0:?}'", std_error)
        );
        assert_eq!(error.full_message(), error.to_string());
    }
}

#[test]
fn expected_bool_message() {
    let std_error = "maybe".parse::<bool>().unwrap_err();
    let error = ExpectedBoolError {};
    assert_eq!(error.to_string(), format!("Expected a bool value: '{0:?}'", std_error));
    assert_eq!(error.full_message(), error.to_string());
}

#[test]
fn messages_without_a_subject() {
    assert_eq!(
        AllButQueryForbiddenError {}.to_string(),
        "Invalid query: Only excluding terms given"
    );
    assert_eq!(
        AllButQueryForbiddenError {}.full_message(),
        "Invalid query: Only excluding terms given"
    );
    assert_eq!(
        NoDefaultFieldDeclaredError {}.to_string(),
        "No default field declared and no field specified in query"
    );
    assert_eq!(
        NoDefaultFieldDeclaredError {}.full_message(),
        NoDefaultFieldDeclaredError {}.to_string()
    );
    assert_eq!(
        RangeMustNotHavePhraseError {}.to_string(),
        "A range query cannot have a phrase as one of the bounds"
    );
    assert_eq!(
        RangeMustNotHavePhraseError {}.full_message(),
        RangeMustNotHavePhraseError {}.to_string()
    );
}

#[test]
fn field_not_indexed_message() {
    let error = FieldNotIndexedError { field: "year".to_string() };
    assert_eq!(error.field(), "year");
    assert_eq!(error.to_string(), "The field 'year' is not declared as indexed");
    assert_eq!(error.full_message(), error.to_string());
}

#[test]
fn field_without_positions_message() {
    let error = FieldDoesNotHavePositionsIndexedError { field: "tags".to_string() };
    assert_eq!(error.field(), "tags");
    assert_eq!(error.to_string(), "The field 'tags' does not have positions indexed");
    assert_eq!(error.full_message(), error.to_string());
}

#[test]
fn phrase_prefix_message_quotes_its_texts() {
    let error = PhrasePrefixRequiresAtLeastTwoTermsError {
        phrase: "say \"hi\"".to_string(),
        tokenizer: "default".to_string(),
    };
    assert_eq!(error.phrase(), "say \"hi\"");
    assert_eq!(error.tokenizer(), "default");
    assert_eq!(
        error.to_string(),
        "The phrase '\"say \\\"hi\\\"\"' does not produce at least two terms using the tokenizer '\"default\"'"
    );
    assert_eq!(
        error.full_message(),
        format!(
            "The phrase '{0:?}' does not produce at least two terms using the tokenizer '{1:?}'",
            "say \"hi\"", "default"
        )
    );
}

#[test]
fn unknown_tokenizer_message_quotes_its_texts() {
    let error =
        UnknownTokenizerError { tokenizer: "my\ttok".to_string(), field: "title".to_string() };
    assert_eq!(error.tokenizer(), "my\ttok");
    assert_eq!(error.field(), "title");
    assert_eq!(
        error.to_string(),
        "The tokenizer '\"my\\ttok\"' for the field '\"title\"' is unknown"
    );
    assert_eq!(
        error.full_message(),
        format!("The tokenizer '{0:?}' for the field '{1:?}' is unknown", "my\ttok", "title")
    );
}

#[test]
fn format_error_messages() {
    assert_eq!(
        DateFormatError { message: "bad month".to_string() }.to_string(),
        "The date field has an invalid format: bad month"
    );
    assert_eq!(
        DateFormatError { message: "x".to_string() }.full_message(),
        "The date field has an invalid format: x"
    );
    assert_eq!(
        FacetFormatError { message: "no slash".to_string() }.to_string(),
        "The facet field is malformed: no slash"
    );
    assert_eq!(
        FacetFormatError { message: "x".to_string() }.full_message(),
        "The facet field is malformed: x"
    );
    assert_eq!(
        IpFormatError { message: "invalid IP address syntax".to_string() }.to_string(),
        "The facet field is malformed: invalid IP address syntax"
    );
    assert_eq!(
        IpFormatError { message: "x".to_string() }.full_message(),
        "The facet field is malformed: x"
    );
}
