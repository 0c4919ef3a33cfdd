//! The schema builder: fields are declared one by one, then the schema is
//! built, once.

use crate::error::{about, bare, Error, ErrorKind, ErrorView};
use crate::schema::{
    find_entry, index_option_named, is_valid_field_name, lemma_position_of, parse_index_option,
    position_of, valid_field_name, well_formed, FieldEntry, FieldEntryView, FieldOptions,
    FieldOptionsView, FieldType, NumericOptions, Schema, TextOptions, TextOptionsView,
};
use crate::text::same_text;
use vstd::prelude::*;

verus! {

/// The options of a text or JSON field, as the host gives them; each is
/// left to its default where it is `None`.
#[derive(Clone, Debug, PartialEq, Eq)]
pub struct TextFieldOptions {
    /// Whether the value is stored (default: no).
    pub stored: Option<bool>,
    /// Whether the value is stored by column (default: no).
    pub fast: Option<bool>,
    /// The tokenizer (default: `default`).
    pub tokenizer_name: Option<String>,
    /// One of `basic`, `freq`, `position` (default: `position`).
    pub index_option: Option<String>,
}

/// The options of a numeric, boolean or date field, as the host gives them.
#[derive(Clone, Copy, Debug, PartialEq, Eq, Structural)]
pub struct NumericFieldOptions {
    pub stored: Option<bool>,
    pub indexed: Option<bool>,
    pub fast: Option<bool>,
}

/// The options of a bytes field, as the host gives them.
#[derive(Clone, Copy, Debug, PartialEq, Eq, Structural)]
pub struct BytesFieldOptions {
    pub stored: Option<bool>,
    pub indexed: Option<bool>,
    pub fast: Option<bool>,
}

/// The options of an IP address field, as the host gives them.
#[derive(Clone, Copy, Debug, PartialEq, Eq, Structural)]
pub struct IpAddrFieldOptions {
    pub stored: Option<bool>,
    pub indexed: Option<bool>,
    pub fast: Option<bool>,
}

/// What a `TextFieldOptions` stands for.
pub struct TextFieldOptionsView {
    pub stored: Option<bool>,
    pub fast: Option<bool>,
    pub tokenizer_name: Option<Seq<char>>,
    pub index_option: Option<Seq<char>>,
}

impl View for TextFieldOptions {
    type V = TextFieldOptionsView;

    open spec fn view(&self) -> TextFieldOptionsView {
        TextFieldOptionsView {
            stored: self.stored,
            fast: self.fast,
            tokenizer_name: match self.tokenizer_name {
                Some(t) => Some(t@),
                None => None,
            },
            index_option: match self.index_option {
                Some(t) => Some(t@),
                None => None,
            },
        }
    }
}

/// A flag that is off where it is not given.
pub open spec fn flag(given: Option<bool>) -> bool {
    match given {
        Some(b) => b,
        None => false,
    }
}

/// The options in which every flag is off.
pub open spec fn no_options() -> NumericOptions {
    NumericOptions { stored: false, indexed: false, fast: false }
}

/// The options of a field from three flags, each off where it is not
/// given.
pub open spec fn flags_of(stored: Option<bool>, indexed: Option<bool>, fast: Option<bool>)
    -> NumericOptions {
    NumericOptions { stored: flag(stored), indexed: flag(indexed), fast: flag(fast) }
}

/// The options of a text field.
///
/// The field is indexed with the named tokenizer (`default` where none is
/// named) and the named index record option (`position` where none is
/// named). If it is stored by column, its values are normalized by the
/// same tokenizer, unless that is `raw`.
pub open spec fn text_options_of(options: Option<TextFieldOptionsView>) -> Result<
    TextOptionsView,
    ErrorView,
> {
    let stored = match options {
        Some(o) => flag(o.stored),
        None => false,
    };
    let fast = match options {
        Some(o) => flag(o.fast),
        None => false,
    };
    let tokenizer = match options {
        Some(TextFieldOptionsView { tokenizer_name: Some(t), .. }) => t,
        _ => "default"@,
    };
    let index_option = match options {
        Some(TextFieldOptionsView { index_option: Some(t), .. }) => t,
        _ => "position"@,
    };
    match index_option_named(index_option) {
        None => Err(bare(ErrorKind::InvalidIndexOption)),
        Some(option) => Ok(
            TextOptionsView {
                stored,
                tokenizer,
                index_option: option,
                fast,
                fast_tokenizer: if fast && tokenizer != "raw"@ {
                    Some(tokenizer)
                } else {
                    None
                },
            },
        ),
    }
}

/// A flag that is off where it is not given.
fn flag_of(given: Option<bool>) -> (r: bool)
    ensures
        r == flag(given),
{
    match given {
        Some(b) => b,
        None => false,
    }
}

/// The options of a numeric, boolean field.
pub fn build_numeric_options(options: Option<NumericFieldOptions>) -> (r: NumericOptions)
    ensures
        r == match options {
            Some(o) => flags_of(o.stored, o.indexed, o.fast),
            None => no_options(),
        },
{
    match options {
        Some(o) => NumericOptions {
            stored: flag_of(o.stored),
            indexed: flag_of(o.indexed),
            fast: flag_of(o.fast),
        },
        None => NumericOptions { stored: false, indexed: false, fast: false },
    }
}

/// The options of a date field.
pub fn build_date_options(options: Option<NumericFieldOptions>) -> (r: NumericOptions)
    ensures
        r == match options {
            Some(o) => flags_of(o.stored, o.indexed, o.fast),
            None => no_options(),
        },
{
    build_numeric_options(options)
}

/// The options of a bytes field.
pub fn build_bytes_options(options: Option<BytesFieldOptions>) -> (r: NumericOptions)
    ensures
        r == match options {
            Some(o) => flags_of(o.stored, o.indexed, o.fast),
            None => no_options(),
        },
{
    match options {
        Some(o) => NumericOptions {
            stored: flag_of(o.stored),
            indexed: flag_of(o.indexed),
            fast: flag_of(o.fast),
        },
        None => NumericOptions { stored: false, indexed: false, fast: false },
    }
}

/// The options of an IP address field.
pub fn build_ip_addr_options(options: Option<IpAddrFieldOptions>) -> (r: NumericOptions)
    ensures
        r == match options {
            Some(o) => flags_of(o.stored, o.indexed, o.fast),
            None => no_options(),
        },
{
    match options {
        Some(o) => NumericOptions {
            stored: flag_of(o.stored),
            indexed: flag_of(o.indexed),
            fast: flag_of(o.fast),
        },
        None => NumericOptions { stored: false, indexed: false, fast: false },
    }
}

/// The options of a text or JSON field.
pub fn build_text_options(options: Option<&TextFieldOptions>) -> (r: Result<TextOptions, Error>)
    ensures
        match text_options_of(
            match options {
                Some(o) => Some(o@),
                None => None,
            },
        ) {
            Ok(o) => r matches Ok(out) && out@ == o,
            Err(e) => r matches Err(err) && err@ == e,
        },
{
    let stored = match options {
        Some(o) => flag_of(o.stored),
        None => false,
    };
    let fast = match options {
        Some(o) => flag_of(o.fast),
        None => false,
    };
    let tokenizer: String = match options {
        Some(o) => match &o.tokenizer_name {
            Some(t) => t.clone(),
            None => "default".to_owned(),
        },
        None => "default".to_owned(),
    };
    let index_option = match options {
        Some(o) => match &o.index_option {
            Some(t) => parse_index_option(t.as_str()),
            None => parse_index_option("position"),
        },
        None => parse_index_option("position"),
    };
    let index_option = match index_option {
        Some(option) => option,
        None => {
            return Err(Error::bare(ErrorKind::InvalidIndexOption));
        },
    };
    let fast_tokenizer = if fast && !same_text(tokenizer.as_str(), "raw") {
        Some(tokenizer.clone())
    } else {
        None
    };
    Ok(TextOptions { stored, tokenizer, index_option, fast, fast_tokenizer })
}

/// Whether a field of the given name can be declared next: the builder has
/// not built its schema yet, the name is valid, and no field has it.
pub open spec fn admits(pending: Option<Seq<FieldEntry>>, name: Seq<char>) -> Result<
    (),
    ErrorView,
> {
    match pending {
        None => Err(bare(ErrorKind::SchemaBuilderConsumed)),
        Some(entries) => if !valid_field_name(name) {
            Err(about(ErrorKind::InvalidFieldName, name))
        } else if position_of(entries, name) is Some {
            Err(about(ErrorKind::DuplicateField, name))
        } else if entries.len() >= u32::MAX {
            Err(bare(ErrorKind::TooManyFields))
        } else {
            Ok(())
        },
    }
}

/// The entry that declaring a field with three flags adds.
pub open spec fn numeric_field(
    pending: Option<Seq<FieldEntry>>,
    name: Seq<char>,
    field_type: FieldType,
    options: NumericOptions,
) -> Result<FieldEntryView, ErrorView> {
    match admits(pending, name) {
        Err(e) => Err(e),
        Ok(_) => Ok(
            FieldEntryView { name, field_type, options: FieldOptionsView::Numeric(options) },
        ),
    }
}

/// The entry that declaring a text or JSON field adds. The options are
/// looked at before the name.
pub open spec fn text_field(
    pending: Option<Seq<FieldEntry>>,
    name: Seq<char>,
    field_type: FieldType,
    options: Option<TextFieldOptionsView>,
) -> Result<FieldEntryView, ErrorView> {
    if pending is None {
        Err(bare(ErrorKind::SchemaBuilderConsumed))
    } else {
        match text_options_of(options) {
            Err(e) => Err(e),
            Ok(o) => match admits(pending, name) {
                Err(e) => Err(e),
                Ok(_) => Ok(
                    FieldEntryView { name, field_type, options: FieldOptionsView::Text(o) },
                ),
            },
        }
    }
}

/// What a declaration does to the builder: with an entry, the entry is
/// added after the fields declared so far; with an error, the error is
/// returned and nothing changes.
pub open spec fn applied(
    before: Option<Seq<FieldEntry>>,
    after: Option<Seq<FieldEntry>>,
    outcome: Result<FieldEntryView, ErrorView>,
    r: Result<(), Error>,
) -> bool {
    match outcome {
        Err(e) => r matches Err(err) && err@ == e && after == before,
        Ok(entry) => {
            &&& r is Ok
            &&& before matches Some(b)
            &&& after matches Some(a)
            &&& a.len() == b.len() + 1
            &&& a.drop_last() == b
            &&& a.last()@ == entry
        },
    }
}

/// A schema in the making. It is building until `build` is called, and
/// built from then on: every later call fails.
#[derive(Debug)]
pub struct SchemaBuilder {
    fields: Option<Vec<FieldEntry>>,
}

impl SchemaBuilder {
    #[verifier::type_invariant]
    spec fn inv(&self) -> bool {
        self.fields matches Some(v) ==> well_formed(v@)
    }

    /// The fields declared so far, or `None` once the schema is built.
    pub closed spec fn pending(&self) -> Option<Seq<FieldEntry>> {
        match self.fields {
            Some(v) => Some(v@),
            None => None,
        }
    }

    /// A builder with no field declared.
    pub fn new() -> (b: SchemaBuilder)
        ensures
            b.pending() == Some(Seq::<FieldEntry>::empty()),
    {
        SchemaBuilder { fields: Some(Vec::new()) }
    }

    /// Whether a name can be the name of a field.
    pub fn is_valid_field_name(name: &str) -> (r: bool)
        ensures
            r == valid_field_name(name@),
    {
        is_valid_field_name(name)
    }

    /// Adds an entry, if a field of its name can be declared.
    fn add_entry(&mut self, entry: FieldEntry) -> (r: Result<(), Error>)
        ensures
            applied(
                old(self).pending(),
                final(self).pending(),
                match admits(old(self).pending(), entry.name@) {
                    Err(e) => Err(e),
                    Ok(_) => Ok(entry@),
                },
                r,
            ),
    {
        proof {
            use_type_invariant(&*self);
        }
        if self.fields.is_none() {
            return Err(Error::bare(ErrorKind::SchemaBuilderConsumed));
        }
        let mut taken = SchemaBuilder { fields: None };
        core::mem::swap(self, &mut taken);
        let mut fields = match taken.fields {
            Some(fields) => fields,
            None => Vec::new(),
        };
        let refusal = if !is_valid_field_name(entry.name.as_str()) {
            Some(Error::new(ErrorKind::InvalidFieldName, entry.name.as_str()))
        } else if find_entry(&fields, entry.name.as_str()).is_some() {
            Some(Error::new(ErrorKind::DuplicateField, entry.name.as_str()))
        } else if fields.len() >= u32::MAX as usize {
            Some(Error::bare(ErrorKind::TooManyFields))
        } else {
            None
        };
        match refusal {
            Some(e) => {
                *self = SchemaBuilder { fields: Some(fields) };
                Err(e)
            },
            None => {
                proof {
                    lemma_position_of(fields@, entry.name@);
                    assert(fields@.push(entry).drop_last() =~= fields@);
                }
                fields.push(entry);
                *self = SchemaBuilder { fields: Some(fields) };
                Ok(())
            },
        }
    }

    /// Declares a field with three flags.
    fn add_numeric(&mut self, name: &str, field_type: FieldType, options: NumericOptions) -> (r:
        Result<(), Error>)
        ensures
            applied(
                old(self).pending(),
                final(self).pending(),
                numeric_field(old(self).pending(), name@, field_type, options),
                r,
            ),
    {
        self.add_entry(
            FieldEntry { name: name.to_owned(), field_type, options: FieldOptions::Numeric(options) },
        )
    }

    /// Declares a field with text options.
    fn add_text(&mut self, name: &str, field_type: FieldType, options: Option<&TextFieldOptions>)
        -> (r: Result<(), Error>)
        ensures
            applied(
                old(self).pending(),
                final(self).pending(),
                text_field(
                    old(self).pending(),
                    name@,
                    field_type,
                    match options {
                        Some(o) => Some(o@),
                        None => None,
                    },
                ),
                r,
            ),
    {
        if self.fields.is_none() {
            return Err(Error::bare(ErrorKind::SchemaBuilderConsumed));
        }
        let text_options = match build_text_options(options) {
            Ok(o) => o,
            Err(e) => {
                return Err(e);
            },
        };
        self.add_entry(
            FieldEntry {
                name: name.to_owned(),
                field_type,
                options: FieldOptions::Text(text_options),
            },
        )
    }

    /// Declares a text field.
    pub fn add_text_field(&mut self, name: &str, options: Option<&TextFieldOptions>) -> (r: Result<
        (),
        Error,
    >)
        ensures
            applied(
                old(self).pending(),
                final(self).pending(),
                text_field(
                    old(self).pending(),
                    name@,
                    FieldType::Str,
                    match options {
                        Some(o) => Some(o@),
                        None => None,
                    },
                ),
                r,
            ),
    {
        self.add_text(name, FieldType::Str, options)
    }

    /// Declares a signed integer field.
    pub fn add_integer_field(&mut self, name: &str, options: Option<NumericFieldOptions>) -> (r:
        Result<(), Error>)
        ensures
            applied(
                old(self).pending(),
                final(self).pending(),
                numeric_field(
                    old(self).pending(),
                    name@,
                    FieldType::I64,
                    match options {
                        Some(o) => flags_of(o.stored, o.indexed, o.fast),
                        None => no_options(),
                    },
                ),
                r,
            ),
    {
        self.add_numeric(name, FieldType::I64, build_numeric_options(options))
    }

    /// Declares an unsigned integer field.
    pub fn add_unsigned_field(&mut self, name: &str, options: Option<NumericFieldOptions>) -> (r:
        Result<(), Error>)
        ensures
            applied(
                old(self).pending(),
                final(self).pending(),
                numeric_field(
                    old(self).pending(),
                    name@,
                    FieldType::U64,
                    match options {
                        Some(o) => flags_of(o.stored, o.indexed, o.fast),
                        None => no_options(),
                    },
                ),
                r,
            ),
    {
        self.add_numeric(name, FieldType::U64, build_numeric_options(options))
    }

    /// Declares a float field.
    pub fn add_float_field(&mut self, name: &str, options: Option<NumericFieldOptions>) -> (r:
        Result<(), Error>)
        ensures
            applied(
                old(self).pending(),
                final(self).pending(),
                numeric_field(
                    old(self).pending(),
                    name@,
                    FieldType::F64,
                    match options {
                        Some(o) => flags_of(o.stored, o.indexed, o.fast),
                        None => no_options(),
                    },
                ),
                r,
            ),
    {
        self.add_numeric(name, FieldType::F64, build_numeric_options(options))
    }

    /// Declares a boolean field.
    pub fn add_boolean_field(&mut self, name: &str, options: Option<NumericFieldOptions>) -> (r:
        Result<(), Error>)
        ensures
            applied(
                old(self).pending(),
                final(self).pending(),
                numeric_field(
                    old(self).pending(),
                    name@,
                    FieldType::Bool,
                    match options {
                        Some(o) => flags_of(o.stored, o.indexed, o.fast),
                        None => no_options(),
                    },
                ),
                r,
            ),
    {
        self.add_numeric(name, FieldType::Bool, build_numeric_options(options))
    }

    /// Declares a date field.
    pub fn add_date_field(&mut self, name: &str, options: Option<NumericFieldOptions>) -> (r:
        Result<(), Error>)
        ensures
            applied(
                old(self).pending(),
                final(self).pending(),
                numeric_field(
                    old(self).pending(),
                    name@,
                    FieldType::Date,
                    match options {
                        Some(o) => flags_of(o.stored, o.indexed, o.fast),
                        None => no_options(),
                    },
                ),
                r,
            ),
    {
        self.add_numeric(name, FieldType::Date, build_date_options(options))
    }

    /// Declares a JSON field.
    pub fn add_json_field(&mut self, name: &str, options: Option<&TextFieldOptions>) -> (r: Result<
        (),
        Error,
    >)
        ensures
            applied(
                old(self).pending(),
                final(self).pending(),
                text_field(
                    old(self).pending(),
                    name@,
                    FieldType::JsonObject,
                    match options {
                        Some(o) => Some(o@),
                        None => None,
                    },
                ),
                r,
            ),
    {
        self.add_text(name, FieldType::JsonObject, options)
    }

    /// Declares a facet field. A facet field is indexed, and neither stored
    /// nor stored by column.
    pub fn add_facet_field(&mut self, name: &str) -> (r: Result<(), Error>)
        ensures
            applied(
                old(self).pending(),
                final(self).pending(),
                numeric_field(
                    old(self).pending(),
                    name@,
                    FieldType::Facet,
                    NumericOptions { stored: false, indexed: true, fast: false },
                ),
                r,
            ),
    {
        self.add_numeric(
            name,
            FieldType::Facet,
            NumericOptions { stored: false, indexed: true, fast: false },
        )
    }

    /// Declares a bytes field.
    pub fn add_bytes_field(&mut self, name: &str, options: Option<BytesFieldOptions>) -> (r: Result<
        (),
        Error,
    >)
        ensures
            applied(
                old(self).pending(),
                final(self).pending(),
                numeric_field(
                    old(self).pending(),
                    name@,
                    FieldType::Bytes,
                    match options {
                        Some(o) => flags_of(o.stored, o.indexed, o.fast),
                        None => no_options(),
                    },
                ),
                r,
            ),
    {
        self.add_numeric(name, FieldType::Bytes, build_bytes_options(options))
    }

    /// Declares an IP address field.
    pub fn add_ip_addr_field(&mut self, name: &str, options: Option<IpAddrFieldOptions>) -> (r:
        Result<(), Error>)
        ensures
            applied(
                old(self).pending(),
                final(self).pending(),
                numeric_field(
                    old(self).pending(),
                    name@,
                    FieldType::IpAddr,
                    match options {
                        Some(o) => flags_of(o.stored, o.indexed, o.fast),
                        None => no_options(),
                    },
                ),
                r,
            ),
    {
        self.add_numeric(name, FieldType::IpAddr, build_ip_addr_options(options))
    }

    /// Builds the schema of the fields declared so far. The builder is
    /// built from then on.
    pub fn build(&mut self) -> (r: Result<Schema, Error>)
        ensures
            final(self).pending() is None,
            match old(self).pending() {
                Some(entries) => r matches Ok(schema) && schema.entries() == entries,
                None => r matches Err(e) && e@ == bare(ErrorKind::SchemaBuilderConsumed),
            },
    {
        proof {
            use_type_invariant(&*self);
        }
        let mut taken = SchemaBuilder { fields: None };
        core::mem::swap(self, &mut taken);
        match taken.fields {
            Some(fields) => match Schema::new(fields) {
                Some(schema) => Ok(schema),
                None => Err(Error::bare(ErrorKind::SchemaBuilderConsumed)),
            },
            None => Err(Error::bare(ErrorKind::SchemaBuilderConsumed)),
        }
    }
}

/// Once the schema is built, every declaration fails as consumed, and so
/// does building again.
pub proof fn lemma_built_is_final(
    name: Seq<char>,
    field_type: FieldType,
    flags: NumericOptions,
    options: Option<TextFieldOptionsView>,
)
    ensures
        numeric_field(None, name, field_type, flags) == Err::<FieldEntryView, ErrorView>(
            bare(ErrorKind::SchemaBuilderConsumed),
        ),
        text_field(None, name, field_type, options) == Err::<FieldEntryView, ErrorView>(
            bare(ErrorKind::SchemaBuilderConsumed),
        ),
{
}

} // verus!
