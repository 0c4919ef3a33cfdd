//! What the query parser reports when it refuses a query.

use crate::text::{contains, debug_text, join2, join3, occurs_in, quoted};
use vstd::prelude::*;

verus! {

/// Error in the query syntax.
#[derive(Clone, Debug, PartialEq, Eq)]
pub struct SyntaxError {
    pub message: String,
}

impl SyntaxError {
    pub fn inner_message(&self) -> (r: String)
        ensures
            r@ == self.message@,
    {
        self.message.clone()
    }

    pub fn full_message(&self) -> (r: String)
        ensures
            r@ == "Syntax Error: "@ + self.message@,
    {
        join2("Syntax Error: ", self.message.as_str())
    }

    pub fn to_string(&self) -> (r: String)
        ensures
            r@ == "Syntax Error: "@ + self.message@,
    {
        self.full_message()
    }
}

/// This query is unsupported.
#[derive(Clone, Debug, PartialEq, Eq)]
pub struct UnsupportedQueryError {
    pub message: String,
}

impl UnsupportedQueryError {
    pub fn inner_message(&self) -> (r: String)
        ensures
            r@ == self.message@,
    {
        self.message.clone()
    }

    pub fn full_message(&self) -> (r: String)
        ensures
            r@ == "Unsupported query: "@ + self.message@,
    {
        join2("Unsupported query: ", self.message.as_str())
    }

    pub fn to_string(&self) -> (r: String)
        ensures
            r@ == "Unsupported query: "@ + self.message@,
    {
        self.full_message()
    }
}

/// The query references a field that is not in the schema.
#[derive(Clone, Debug, PartialEq, Eq)]
pub struct FieldDoesNotExistError {
    pub field: String,
}

impl FieldDoesNotExistError {
    /// The name of the field causing the error.
    pub fn field(&self) -> (r: String)
        ensures
            r@ == self.field@,
    {
        self.field.clone()
    }

    pub fn full_message(&self) -> (r: String)
        ensures
            r@ == "Field does not exist: '"@ + self.field@ + "'"@,
    {
        join3("Field does not exist: '", self.field.as_str(), "'")
    }

    pub fn to_string(&self) -> (r: String)
        ensures
            r@ == "Field does not exist: '"@ + self.field@ + "'"@,
    {
        self.full_message()
    }
}

/// Why a text is not an integer.
#[derive(Clone, Copy, Debug, PartialEq, Eq, Structural)]
pub enum IntErrorKind {
    /// The text is empty.
    Empty,
    /// The text holds a character that is not a digit.
    InvalidDigit,
    /// The integer is too large.
    PosOverflow,
    /// The integer is too small.
    NegOverflow,
    /// The integer is zero where zero is not taken.
    Zero,
}

impl IntErrorKind {
    /// The name of the kind.
    pub open spec fn name(self) -> Seq<char> {
        match self {
            IntErrorKind::Empty => "Empty"@,
            IntErrorKind::InvalidDigit => "InvalidDigit"@,
            IntErrorKind::PosOverflow => "PosOverflow"@,
            IntErrorKind::NegOverflow => "NegOverflow"@,
            IntErrorKind::Zero => "Zero"@,
        }
    }

    fn name_text(self) -> (r: &'static str)
        ensures
            r@ == self.name(),
    {
        match self {
            IntErrorKind::Empty => "Empty",
            IntErrorKind::InvalidDigit => "InvalidDigit",
            IntErrorKind::PosOverflow => "PosOverflow",
            IntErrorKind::NegOverflow => "NegOverflow",
            IntErrorKind::Zero => "Zero",
        }
    }
}

/// The query contains a term for a `u64` or `i64`-field, but the value is
/// neither.
#[derive(Clone, Copy, Debug, PartialEq, Eq, Structural)]
pub struct ExpectedIntError {
    pub kind: IntErrorKind,
}

impl ExpectedIntError {
    /// If `true`, the value being parsed was empty.
    pub fn caused_by_empty(&self) -> (r: bool)
        ensures
            r == (self.kind == IntErrorKind::Empty),
    {
        matches!(self.kind, IntErrorKind::Empty)
    }

    /// If `true`, an invalid digit was found.
    pub fn caused_by_invalid_digit(&self) -> (r: bool)
        ensures
            r == (self.kind == IntErrorKind::InvalidDigit),
    {
        matches!(self.kind, IntErrorKind::InvalidDigit)
    }

    /// If `true`, the value being parsed was too large.
    pub fn caused_by_pos_overflow(&self) -> (r: bool)
        ensures
            r == (self.kind == IntErrorKind::PosOverflow),
    {
        matches!(self.kind, IntErrorKind::PosOverflow)
    }

    /// If `true`, the value being parsed was too small.
    pub fn caused_by_neg_overflow(&self) -> (r: bool)
        ensures
            r == (self.kind == IntErrorKind::NegOverflow),
    {
        matches!(self.kind, IntErrorKind::NegOverflow)
    }

    pub fn full_message(&self) -> (r: String)
        ensures
            r@ == "Expected a valid integer: 'ParseIntError { kind: "@ + self.kind.name() + " }'"@,
    {
        join3("Expected a valid integer: 'ParseIntError { kind: ", self.kind.name_text(), " }'")
    }

    pub fn to_string(&self) -> (r: String)
        ensures
            r@ == "Expected a valid integer: 'ParseIntError { kind: "@ + self.kind.name() + " }'"@,
    {
        self.full_message()
    }
}

/// The query contains a term for a bytes field, but the value is not valid
/// base64. The error is kept as the text that describes it.
#[derive(Clone, Debug, PartialEq, Eq)]
pub struct ExpectedBase64Error {
    pub message: String,
}

impl ExpectedBase64Error {
    /// If `true`, an invalid byte was found in the query. Padding
    /// characters (`=`) interspersed in the encoded form are invalid bytes.
    pub fn caused_by_invalid_byte(&self) -> (r: bool)
        ensures
            r == occurs_in("InvalidByte"@, self.message@),
    {
        contains(self.message.as_str(), "InvalidByte")
    }

    /// The offset and the offending byte of an invalid byte: they are not
    /// kept.
    pub fn invalid_byte_info(&self) -> (r: Option<Vec<u32>>)
        ensures
            r is None,
    {
        None
    }

    /// If `true`, the length of the base64 string was invalid.
    pub fn caused_by_invalid_length(&self) -> (r: bool)
        ensures
            r == occurs_in("InvalidLength"@, self.message@),
    {
        contains(self.message.as_str(), "InvalidLength")
    }

    /// If `true`, the last symbol has bits that would be discarded: the
    /// base64 is corrupted or truncated.
    pub fn caused_by_invalid_last_symbol(&self) -> (r: bool)
        ensures
            r == occurs_in("InvalidLastSymbol"@, self.message@),
    {
        contains(self.message.as_str(), "InvalidLastSymbol")
    }

    /// The offset and the offending byte of an invalid last symbol: they
    /// are not kept.
    pub fn invalid_last_symbol_info(&self) -> (r: Option<Vec<u32>>)
        ensures
            r is None,
    {
        None
    }

    /// If `true`, the padding was not as it must be.
    pub fn caused_by_invalid_padding(&self) -> (r: bool)
        ensures
            r == occurs_in("InvalidPadding"@, self.message@),
    {
        contains(self.message.as_str(), "InvalidPadding")
    }

    pub fn full_message(&self) -> (r: String)
        ensures
            r@ == "Expected base64: "@ + self.message@,
    {
        join2("Expected base64: ", self.message.as_str())
    }

    pub fn to_string(&self) -> (r: String)
        ensures
            r@ == "Expected base64: "@ + self.message@,
    {
        self.full_message()
    }
}

/// Why a text is not a float.
#[derive(Clone, Copy, Debug, PartialEq, Eq, Structural)]
pub enum FloatErrorKind {
    /// The text is empty.
    Empty,
    /// The text is not a number.
    Invalid,
}

impl FloatErrorKind {
    /// The name of the kind.
    pub open spec fn name(self) -> Seq<char> {
        match self {
            FloatErrorKind::Empty => "Empty"@,
            FloatErrorKind::Invalid => "Invalid"@,
        }
    }

    fn name_text(self) -> (r: &'static str)
        ensures
            r@ == self.name(),
    {
        match self {
            FloatErrorKind::Empty => "Empty",
            FloatErrorKind::Invalid => "Invalid",
        }
    }
}

/// The query contains a term for a float field, but the value is not a
/// float.
#[derive(Clone, Copy, Debug, PartialEq, Eq, Structural)]
pub struct ExpectedFloatError {
    pub kind: FloatErrorKind,
}

impl ExpectedFloatError {
    pub fn full_message(&self) -> (r: String)
        ensures
            r@ == "Expected a float value: 'ParseFloatError { kind: "@ + self.kind.name()
                + " }'"@,
    {
        join3("Expected a float value: 'ParseFloatError { kind: ", self.kind.name_text(), " }'")
    }

    pub fn to_string(&self) -> (r: String)
        ensures
            r@ == "Expected a float value: 'ParseFloatError { kind: "@ + self.kind.name()
                + " }'"@,
    {
        self.full_message()
    }
}

/// The query contains a term for a `bool`-field, but the value is not a
/// bool.
#[derive(Clone, Copy, Debug, PartialEq, Eq, Structural)]
pub struct ExpectedBoolError {}

impl ExpectedBoolError {
    pub fn full_message(&self) -> (r: String)
        ensures
            r@ == "Expected a bool value: 'ParseBoolError'"@,
    {
        "Expected a bool value: 'ParseBoolError'".to_owned()
    }

    pub fn to_string(&self) -> (r: String)
        ensures
            r@ == "Expected a bool value: 'ParseBoolError'"@,
    {
        self.full_message()
    }
}

/// It is forbidden queries that are only "excluding". (e.g. -title:pop)
#[derive(Clone, Copy, Debug, PartialEq, Eq, Structural)]
pub struct AllButQueryForbiddenError {}

impl AllButQueryForbiddenError {
    pub fn full_message(&self) -> (r: String)
        ensures
            r@ == "Invalid query: Only excluding terms given"@,
    {
        "Invalid query: Only excluding terms given".to_owned()
    }

    pub fn to_string(&self) -> (r: String)
        ensures
            r@ == "Invalid query: Only excluding terms given"@,
    {
        self.full_message()
    }
}

/// If no default field is declared, running a query without any field
/// specified is forbidden.
#[derive(Clone, Copy, Debug, PartialEq, Eq, Structural)]
pub struct NoDefaultFieldDeclaredError {}

impl NoDefaultFieldDeclaredError {
    pub fn full_message(&self) -> (r: String)
        ensures
            r@ == "No default field declared and no field specified in query"@,
    {
        "No default field declared and no field specified in query".to_owned()
    }

    pub fn to_string(&self) -> (r: String)
        ensures
            r@ == "No default field declared and no field specified in query"@,
    {
        self.full_message()
    }
}

/// The field searched for is not declared as indexed in the schema.
#[derive(Clone, Debug, PartialEq, Eq)]
pub struct FieldNotIndexedError {
    pub field: String,
}

impl FieldNotIndexedError {
    pub fn field(&self) -> (r: String)
        ensures
            r@ == self.field@,
    {
        self.field.clone()
    }

    pub fn full_message(&self) -> (r: String)
        ensures
            r@ == "The field '"@ + self.field@ + "' is not declared as indexed"@,
    {
        join3("The field '", self.field.as_str(), "' is not declared as indexed")
    }

    pub fn to_string(&self) -> (r: String)
        ensures
            r@ == "The field '"@ + self.field@ + "' is not declared as indexed"@,
    {
        self.full_message()
    }
}

/// A phrase query was requested for a field that does not have any
/// positions indexed.
#[derive(Clone, Debug, PartialEq, Eq)]
pub struct FieldDoesNotHavePositionsIndexedError {
    pub field: String,
}

impl FieldDoesNotHavePositionsIndexedError {
    pub fn field(&self) -> (r: String)
        ensures
            r@ == self.field@,
    {
        self.field.clone()
    }

    pub fn full_message(&self) -> (r: String)
        ensures
            r@ == "The field '"@ + self.field@ + "' does not have positions indexed"@,
    {
        join3("The field '", self.field.as_str(), "' does not have positions indexed")
    }

    pub fn to_string(&self) -> (r: String)
        ensures
            r@ == "The field '"@ + self.field@ + "' does not have positions indexed"@,
    {
        self.full_message()
    }
}

/// A phrase-prefix query requires at least two terms.
#[derive(Clone, Debug, PartialEq, Eq)]
pub struct PhrasePrefixRequiresAtLeastTwoTermsError {
    /// The phrase which triggered the issue.
    pub phrase: String,
    /// The tokenizer configured for the field.
    pub tokenizer: String,
}

impl PhrasePrefixRequiresAtLeastTwoTermsError {
    pub fn phrase(&self) -> (r: String)
        ensures
            r@ == self.phrase@,
    {
        self.phrase.clone()
    }

    pub fn tokenizer(&self) -> (r: String)
        ensures
            r@ == self.tokenizer@,
    {
        self.tokenizer.clone()
    }

    /// The phrase and the tokenizer are shown as `Debug` shows a text.
    pub fn full_message(&self) -> (r: String)
        ensures
            r@ == "The phrase '"@ + debug_text(self.phrase@)
                + "' does not produce at least two terms using the tokenizer '"@ + debug_text(
                self.tokenizer@,
            ) + "'"@,
    {
        let head = join3(
            "The phrase '",
            quoted(self.phrase.as_str()).as_str(),
            "' does not produce at least two terms using the tokenizer '",
        );
        join3(head.as_str(), quoted(self.tokenizer.as_str()).as_str(), "'")
    }

    pub fn to_string(&self) -> (r: String)
        ensures
            r@ == "The phrase '"@ + debug_text(self.phrase@)
                + "' does not produce at least two terms using the tokenizer '"@ + debug_text(
                self.tokenizer@,
            ) + "'"@,
    {
        self.full_message()
    }
}

/// The tokenizer for the given field is unknown.
#[derive(Clone, Debug, PartialEq, Eq)]
pub struct UnknownTokenizerError {
    /// The name of the tokenizer.
    pub tokenizer: String,
    /// The field name.
    pub field: String,
}

impl UnknownTokenizerError {
    pub fn tokenizer(&self) -> (r: String)
        ensures
            r@ == self.tokenizer@,
    {
        self.tokenizer.clone()
    }

    pub fn field(&self) -> (r: String)
        ensures
            r@ == self.field@,
    {
        self.field.clone()
    }

    /// The tokenizer and the field are shown as `Debug` shows a text.
    pub fn full_message(&self) -> (r: String)
        ensures
            r@ == "The tokenizer '"@ + debug_text(self.tokenizer@) + "' for the field '"@
                + debug_text(self.field@) + "' is unknown"@,
    {
        let head = join3(
            "The tokenizer '",
            quoted(self.tokenizer.as_str()).as_str(),
            "' for the field '",
        );
        join3(head.as_str(), quoted(self.field.as_str()).as_str(), "' is unknown")
    }

    pub fn to_string(&self) -> (r: String)
        ensures
            r@ == "The tokenizer '"@ + debug_text(self.tokenizer@) + "' for the field '"@
                + debug_text(self.field@) + "' is unknown"@,
    {
        self.full_message()
    }
}

/// The query contains a range query with a phrase as one of the bounds.
/// Only terms can be used as bounds.
#[derive(Clone, Copy, Debug, PartialEq, Eq, Structural)]
pub struct RangeMustNotHavePhraseError {}

impl RangeMustNotHavePhraseError {
    pub fn full_message(&self) -> (r: String)
        ensures
            r@ == "A range query cannot have a phrase as one of the bounds"@,
    {
        "A range query cannot have a phrase as one of the bounds".to_owned()
    }

    pub fn to_string(&self) -> (r: String)
        ensures
            r@ == "A range query cannot have a phrase as one of the bounds"@,
    {
        self.full_message()
    }
}

/// The format for the date field is not RFC 3339 compliant. The error is
/// kept as the text that describes it.
#[derive(Clone, Debug, PartialEq, Eq)]
pub struct DateFormatError {
    pub message: String,
}

impl DateFormatError {
    pub fn full_message(&self) -> (r: String)
        ensures
            r@ == "The date field has an invalid format: "@ + self.message@,
    {
        join2("The date field has an invalid format: ", self.message.as_str())
    }

    pub fn to_string(&self) -> (r: String)
        ensures
            r@ == "The date field has an invalid format: "@ + self.message@,
    {
        self.full_message()
    }
}

/// The format for the facet field is invalid. The error is kept as the
/// text that describes it.
#[derive(Clone, Debug, PartialEq, Eq)]
pub struct FacetFormatError {
    pub message: String,
}

impl FacetFormatError {
    pub fn full_message(&self) -> (r: String)
        ensures
            r@ == "The facet field is malformed: "@ + self.message@,
    {
        join2("The facet field is malformed: ", self.message.as_str())
    }

    pub fn to_string(&self) -> (r: String)
        ensures
            r@ == "The facet field is malformed: "@ + self.message@,
    {
        self.full_message()
    }
}

/// The format for the ip field is invalid. The error is kept as the text
/// that describes it.
#[derive(Clone, Debug, PartialEq, Eq)]
pub struct IpFormatError {
    pub message: String,
}

impl IpFormatError {
    pub fn full_message(&self) -> (r: String)
        ensures
            r@ == "The facet field is malformed: "@ + self.message@,
    {
        join2("The facet field is malformed: ", self.message.as_str())
    }

    pub fn to_string(&self) -> (r: String)
        ensures
            r@ == "The facet field is malformed: "@ + self.message@,
    {
        self.full_message()
    }
}

} // verus!
