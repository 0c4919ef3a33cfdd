//! The error taxonomy shared by every component.

use crate::schema::FieldType;
use crate::text::{join2, join3};
use vstd::prelude::*;
use vstd::string::StringExecFns;

verus! {

/// The three statuses under which every failure is reported to the host.
#[derive(Clone, Copy, Debug, PartialEq, Eq, Structural)]
pub enum Status {
    /// Malformed or unsupported caller input.
    InvalidArg,
    /// A value does not match the declared type of its field.
    TypeMismatch,
    /// A failure of the engine, or a handle that was already consumed.
    GenericFailure,
}

/// What went wrong, without the offending text.
#[derive(Clone, Copy, Debug, PartialEq, Eq, Structural)]
pub enum ErrorKind {
    /// The host value is of a kind that no field can hold.
    UnsupportedValue,
    /// The value cannot be converted under the declared type.
    TypeMismatch(FieldType),
    /// A bytes field was given something that is not a binary buffer.
    ExpectedBuffer,
    /// A document was to be made of something that is not an object.
    ExpectedObject,
    /// What came over the wire is not the wire form of a value.
    InvalidWire,
    /// The text is not an RFC 3339 timestamp.
    InvalidDate,
    /// The date lies outside what the engine can encode.
    DateOutOfRange,
    /// The text is not a facet path rooted at `/`.
    InvalidFacet,
    /// The text is not an IP address.
    InvalidIpAddr,
    /// The schema declares no field of that name.
    FieldDoesNotExist,
    /// The field is declared, but not indexed.
    FieldNotIndexed,
    /// The index record option is none of `basic`, `freq`, `position`.
    InvalidIndexOption,
    /// The reload policy is none of the known names.
    InvalidReloadPolicy,
    /// A field name is empty or begins with `-`.
    InvalidFieldName,
    /// The schema already declares a field of that name.
    DuplicateField,
    /// The schema has as many fields as can be numbered.
    TooManyFields,
    /// A phrase query was asked for without any word.
    EmptyPhrase,
    /// A phrase query was asked for with a single word.
    PhraseTooShort,
    /// Range queries are not defined on fields of that type.
    UnsupportedRangeType(FieldType),
    /// The pattern is not a regular expression the engine accepts.
    InvalidRegex,
    /// The aggregation request is not valid.
    InvalidAggregation,
    /// A search was asked for at most zero hits.
    InvalidLimit,
    /// Hits can be ordered only by an unsigned field that is stored by column.
    NotFastUnsigned,
    /// What the engine found is not of the kind that the search ranks by.
    OutcomeMismatch,
    /// The schema builder was used after `build`.
    SchemaBuilderConsumed,
    /// The analyzer builder was used after it was consumed.
    AnalyzerBuilderConsumed,
    /// The stemmer or stop word language is not known.
    UnsupportedLanguage,
    /// There is no list of stop words for the language.
    NoStopWords,
    /// The pattern of a regex tokenizer is not a regular expression.
    InvalidTokenizerPattern,
    /// An n-gram tokenizer needs 0 < min_gram <= max_gram.
    InvalidNgramRange,
    /// The index writer was used after it was consumed.
    WriterConsumed,
}

impl ErrorKind {
    /// The status under which an error of this kind is reported.
    pub open spec fn spec_status(self) -> Status {
        match self {
            ErrorKind::TypeMismatch(_) => Status::TypeMismatch,
            ErrorKind::InvalidRegex
            | ErrorKind::OutcomeMismatch
            | ErrorKind::AnalyzerBuilderConsumed
            | ErrorKind::UnsupportedLanguage
            | ErrorKind::NoStopWords
            | ErrorKind::InvalidTokenizerPattern
            | ErrorKind::InvalidNgramRange
            | ErrorKind::WriterConsumed => Status::GenericFailure,
            _ => Status::InvalidArg,
        }
    }

    #[verifier::when_used_as_spec(spec_status)]
    pub fn status(self) -> (s: Status)
        ensures
            s == self.spec_status(),
    {
        match self {
            ErrorKind::TypeMismatch(_) => Status::TypeMismatch,
            ErrorKind::InvalidRegex
            | ErrorKind::OutcomeMismatch
            | ErrorKind::AnalyzerBuilderConsumed
            | ErrorKind::UnsupportedLanguage
            | ErrorKind::NoStopWords
            | ErrorKind::InvalidTokenizerPattern
            | ErrorKind::InvalidNgramRange
            | ErrorKind::WriterConsumed => Status::GenericFailure,
            _ => Status::InvalidArg,
        }
    }
}

/// An error: its kind, and the text it is about (a field name, the
/// offending input, or the engine's message).
#[derive(Clone, Debug, PartialEq, Eq)]
pub struct Error {
    pub kind: ErrorKind,
    pub subject: String,
}

/// What an `Error` stands for.
pub struct ErrorView {
    pub kind: ErrorKind,
    pub subject: Seq<char>,
}

impl View for Error {
    type V = ErrorView;

    open spec fn view(&self) -> ErrorView {
        ErrorView { kind: self.kind, subject: self.subject@ }
    }
}

/// The error of a kind that is about no particular text.
pub open spec fn bare(kind: ErrorKind) -> ErrorView {
    ErrorView { kind, subject: Seq::empty() }
}

/// The error of a kind about a text.
pub open spec fn about(kind: ErrorKind, subject: Seq<char>) -> ErrorView {
    ErrorView { kind, subject }
}

impl Error {
    pub fn new(kind: ErrorKind, subject: &str) -> (e: Error)
        ensures
            e@ == about(kind, subject@),
    {
        Error { kind, subject: String::from_str(subject) }
    }

    /// An error that is about no particular text.
    pub fn bare(kind: ErrorKind) -> (e: Error)
        ensures
            e@ == bare(kind),
    {
        Error { kind, subject: String::new() }
    }

    pub fn status(&self) -> (s: Status)
        ensures
            s == self.kind.spec_status(),
    {
        self.kind.status()
    }
}

/// The name of a field type in messages.
pub open spec fn field_type_name(t: FieldType) -> Seq<char> {
    match t {
        FieldType::Str => "Str"@,
        FieldType::U64 => "U64"@,
        FieldType::I64 => "I64"@,
        FieldType::F64 => "F64"@,
        FieldType::Bool => "Bool"@,
        FieldType::Date => "DateTime"@,
        FieldType::Facet => "Facet"@,
        FieldType::Bytes => "Bytes"@,
        FieldType::JsonObject => "Json"@,
        FieldType::IpAddr => "IpAddr"@,
    }
}

/// The name of a field type in messages.
fn name_of_type(t: FieldType) -> (r: &'static str)
    ensures
        r@ == field_type_name(t),
{
    match t {
        FieldType::Str => "Str",
        FieldType::U64 => "U64",
        FieldType::I64 => "I64",
        FieldType::F64 => "F64",
        FieldType::Bool => "Bool",
        FieldType::Date => "DateTime",
        FieldType::Facet => "Facet",
        FieldType::Bytes => "Bytes",
        FieldType::JsonObject => "Json",
        FieldType::IpAddr => "IpAddr",
    }
}

/// What fields of a type are called where a range over them is refused.
pub open spec fn range_name(t: FieldType) -> Seq<char> {
    match t {
        FieldType::Str => "Text"@,
        FieldType::Bool => "Boolean"@,
        _ => field_type_name(t),
    }
}

/// The message of an error.
pub open spec fn message_of(e: ErrorView) -> Seq<char> {
    match e.kind {
        ErrorKind::UnsupportedValue => "Unsupported value type"@,
        ErrorKind::TypeMismatch(t) => "Expected "@ + field_type_name(t) + " type for field "@
            + e.subject + ", got unexpected value"@,
        ErrorKind::ExpectedBuffer => "Expected Buffer for bytes field"@,
        ErrorKind::ExpectedObject => "Expected an object"@,
        ErrorKind::InvalidWire => "Not the wire form of a value"@,
        ErrorKind::InvalidDate => "Invalid ISO date string: "@ + e.subject,
        ErrorKind::DateOutOfRange => "Date out of range"@,
        ErrorKind::InvalidFacet => "Invalid facet: "@ + e.subject,
        ErrorKind::InvalidIpAddr => "Invalid IP address: "@ + e.subject,
        ErrorKind::FieldDoesNotExist => "Field '"@ + e.subject + "' is not defined in the schema."@,
        ErrorKind::FieldNotIndexed => "Field `"@ + e.subject
            + "` is not set as indexed in the schema."@,
        ErrorKind::InvalidIndexOption => "Invalid index option, valid choices are: 'basic', 'freq' and 'position'"@,
        ErrorKind::InvalidReloadPolicy => "Invalid reload policy, valid choices are: 'manual' and 'OnCommit'"@,
        ErrorKind::InvalidFieldName => "Invalid field name: "@ + e.subject,
        ErrorKind::DuplicateField => "Field already exists in schema "@ + e.subject,
        ErrorKind::TooManyFields => "Too many fields"@,
        ErrorKind::EmptyPhrase => "words must not be empty."@,
        ErrorKind::PhraseTooShort => "A phrase query is required to have strictly more than one term."@,
        ErrorKind::UnsupportedRangeType(t) => range_name(t)
            + " fields are not supported for range queries."@,
        ErrorKind::InvalidRegex => e.subject,
        ErrorKind::InvalidAggregation => "Invalid aggregation JSON: "@ + e.subject,
        ErrorKind::InvalidLimit => "Limit must be strictly greater than 0."@,
        ErrorKind::NotFastUnsigned => "Field '"@ + e.subject + "' is not a fast unsigned field."@,
        ErrorKind::OutcomeMismatch => "The hits are not of the kind that the search ranks by"@,
        ErrorKind::SchemaBuilderConsumed => "Schema builder is no longer valid"@,
        ErrorKind::AnalyzerBuilderConsumed => "Builder has already been consumed"@,
        ErrorKind::UnsupportedLanguage => "Unsupported language: "@ + e.subject,
        ErrorKind::NoStopWords => "No stop words for language: "@ + e.subject,
        ErrorKind::InvalidTokenizerPattern => "Invalid regex pattern: "@ + e.subject,
        ErrorKind::InvalidNgramRange => "min_gram must be greater than 0 and not greater than max_gram"@,
        ErrorKind::WriterConsumed => "IndexWriter was consumed and no longer in a valid state"@,
    }
}

impl Error {
    /// The message of the error.
    pub fn message(&self) -> (r: String)
        ensures
            r@ == message_of(self@),
    {
        let subject = self.subject.as_str();
        match self.kind {
            ErrorKind::UnsupportedValue => "Unsupported value type".to_owned(),
            ErrorKind::TypeMismatch(t) => {
                let head = join3("Expected ", name_of_type(t), " type for field ");
                join3(head.as_str(), subject, ", got unexpected value")
            },
            ErrorKind::ExpectedBuffer => "Expected Buffer for bytes field".to_owned(),
            ErrorKind::ExpectedObject => "Expected an object".to_owned(),
            ErrorKind::InvalidWire => "Not the wire form of a value".to_owned(),
            ErrorKind::InvalidDate => join2("Invalid ISO date string: ", subject),
            ErrorKind::DateOutOfRange => "Date out of range".to_owned(),
            ErrorKind::InvalidFacet => join2("Invalid facet: ", subject),
            ErrorKind::InvalidIpAddr => join2("Invalid IP address: ", subject),
            ErrorKind::FieldDoesNotExist => join3(
                "Field '",
                subject,
                "' is not defined in the schema.",
            ),
            ErrorKind::FieldNotIndexed => join3(
                "Field `",
                subject,
                "` is not set as indexed in the schema.",
            ),
            ErrorKind::InvalidIndexOption => "Invalid index option, valid choices are: 'basic', 'freq' and 'position'".to_owned(),
            ErrorKind::InvalidReloadPolicy => "Invalid reload policy, valid choices are: 'manual' and 'OnCommit'".to_owned(),
            ErrorKind::InvalidFieldName => join2("Invalid field name: ", subject),
            ErrorKind::DuplicateField => join2("Field already exists in schema ", subject),
            ErrorKind::TooManyFields => "Too many fields".to_owned(),
            ErrorKind::EmptyPhrase => "words must not be empty.".to_owned(),
            ErrorKind::PhraseTooShort => "A phrase query is required to have strictly more than one term.".to_owned(),
            ErrorKind::UnsupportedRangeType(t) => {
                let name = match t {
                    FieldType::Str => "Text",
                    FieldType::Bool => "Boolean",
                    _ => name_of_type(t),
                };
                join2(name, " fields are not supported for range queries.")
            },
            ErrorKind::InvalidRegex => self.subject.clone(),
            ErrorKind::InvalidAggregation => join2("Invalid aggregation JSON: ", subject),
            ErrorKind::InvalidLimit => "Limit must be strictly greater than 0.".to_owned(),
            ErrorKind::NotFastUnsigned => join3("Field '", subject, "' is not a fast unsigned field."),
            ErrorKind::OutcomeMismatch => "The hits are not of the kind that the search ranks by".to_owned(),
            ErrorKind::SchemaBuilderConsumed => "Schema builder is no longer valid".to_owned(),
            ErrorKind::AnalyzerBuilderConsumed => "Builder has already been consumed".to_owned(),
            ErrorKind::UnsupportedLanguage => join2("Unsupported language: ", subject),
            ErrorKind::NoStopWords => join2("No stop words for language: ", subject),
            ErrorKind::InvalidTokenizerPattern => join2("Invalid regex pattern: ", subject),
            ErrorKind::InvalidNgramRange => "min_gram must be greater than 0 and not greater than max_gram".to_owned(),
            ErrorKind::WriterConsumed => "IndexWriter was consumed and no longer in a valid state".to_owned(),
        }
    }
}

} // verus!
