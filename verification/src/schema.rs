//! Field types and the schema model.

use crate::error::{about, Error, ErrorKind};
use crate::text::same_text;
use vstd::prelude::*;

verus! {

/// The closed set of types a schema field can be declared with.
#[derive(Clone, Copy, Debug, PartialEq, Eq, Structural)]
pub enum FieldType {
    Str,
    U64,
    I64,
    F64,
    Bool,
    Date,
    Facet,
    Bytes,
    JsonObject,
    IpAddr,
}

/// How much of a term's occurrences the index records.
#[derive(Clone, Copy, Debug, PartialEq, Eq, Structural)]
pub enum IndexRecordOption {
    /// The documents only.
    Basic,
    /// The documents and the term frequencies.
    WithFreqs,
    /// The documents, the term frequencies and the positions.
    WithFreqsAndPositions,
}

/// The index record option that a name stands for: one of `position`,
/// `freq`, `basic`.
pub open spec fn index_option_named(name: Seq<char>) -> Option<IndexRecordOption> {
    if name == "position"@ {
        Some(IndexRecordOption::WithFreqsAndPositions)
    } else if name == "freq"@ {
        Some(IndexRecordOption::WithFreqs)
    } else if name == "basic"@ {
        Some(IndexRecordOption::Basic)
    } else {
        None
    }
}

/// The index record option that a name stands for.
pub fn parse_index_option(name: &str) -> (r: Option<IndexRecordOption>)
    ensures
        r == index_option_named(name@),
{
    if same_text(name, "position") {
        Some(IndexRecordOption::WithFreqsAndPositions)
    } else if same_text(name, "freq") {
        Some(IndexRecordOption::WithFreqs)
    } else if same_text(name, "basic") {
        Some(IndexRecordOption::Basic)
    } else {
        None
    }
}

/// How a text or JSON field is stored and indexed. Such a field is always
/// indexed.
#[derive(Clone, Debug, PartialEq, Eq)]
pub struct TextOptions {
    pub stored: bool,
    pub tokenizer: String,
    pub index_option: IndexRecordOption,
    pub fast: bool,
    /// The tokenizer that normalizes the fast field, if one does.
    pub fast_tokenizer: Option<String>,
}

/// What a `TextOptions` stands for.
pub struct TextOptionsView {
    pub stored: bool,
    pub tokenizer: Seq<char>,
    pub index_option: IndexRecordOption,
    pub fast: bool,
    pub fast_tokenizer: Option<Seq<char>>,
}

impl View for TextOptions {
    type V = TextOptionsView;

    open spec fn view(&self) -> TextOptionsView {
        TextOptionsView {
            stored: self.stored,
            tokenizer: self.tokenizer@,
            index_option: self.index_option,
            fast: self.fast,
            fast_tokenizer: match self.fast_tokenizer {
                Some(t) => Some(t@),
                None => None,
            },
        }
    }
}

/// How a field that is not text is stored and indexed.
#[derive(Clone, Copy, Debug, PartialEq, Eq, Structural)]
pub struct NumericOptions {
    pub stored: bool,
    pub indexed: bool,
    pub fast: bool,
}

/// The options of a field.
#[derive(Clone, Debug, PartialEq, Eq)]
pub enum FieldOptions {
    Text(TextOptions),
    Numeric(NumericOptions),
}

/// What a `FieldOptions` stands for.
pub enum FieldOptionsView {
    Text(TextOptionsView),
    Numeric(NumericOptions),
}

impl View for FieldOptions {
    type V = FieldOptionsView;

    open spec fn view(&self) -> FieldOptionsView {
        match self {
            FieldOptions::Text(o) => FieldOptionsView::Text(o@),
            FieldOptions::Numeric(o) => FieldOptionsView::Numeric(*o),
        }
    }
}

/// A declared field.
#[derive(Clone, Debug, PartialEq, Eq)]
pub struct FieldEntry {
    pub name: String,
    pub field_type: FieldType,
    pub options: FieldOptions,
}

/// What a `FieldEntry` stands for.
pub struct FieldEntryView {
    pub name: Seq<char>,
    pub field_type: FieldType,
    pub options: FieldOptionsView,
}

impl View for FieldEntry {
    type V = FieldEntryView;

    open spec fn view(&self) -> FieldEntryView {
        FieldEntryView { name: self.name@, field_type: self.field_type, options: self.options@ }
    }
}


impl TextOptions {
    /// A copy of the options.
    pub fn duplicate(&self) -> (r: TextOptions)
        ensures
            r == *self,
    {
        TextOptions {
            stored: self.stored,
            tokenizer: self.tokenizer.clone(),
            index_option: self.index_option,
            fast: self.fast,
            fast_tokenizer: match &self.fast_tokenizer {
                Some(t) => Some(t.clone()),
                None => None,
            },
        }
    }
}

impl FieldEntry {
    /// A copy of the entry.
    pub fn duplicate(&self) -> (r: FieldEntry)
        ensures
            r == *self,
    {
        FieldEntry {
            name: self.name.clone(),
            field_type: self.field_type,
            options: match &self.options {
                FieldOptions::Text(o) => FieldOptions::Text(o.duplicate()),
                FieldOptions::Numeric(o) => FieldOptions::Numeric(*o),
            },
        }
    }

    pub open spec fn spec_is_indexed(&self) -> bool {
        match self.options {
            FieldOptions::Text(_) => true,
            FieldOptions::Numeric(o) => o.indexed,
        }
    }

    /// Whether the field can be searched.
    #[verifier::when_used_as_spec(spec_is_indexed)]
    pub fn is_indexed(&self) -> (r: bool)
        ensures
            r == self.spec_is_indexed(),
    {
        match &self.options {
            FieldOptions::Text(_) => true,
            FieldOptions::Numeric(o) => o.indexed,
        }
    }

    pub open spec fn spec_is_fast(&self) -> bool {
        match self.options {
            FieldOptions::Text(o) => o.fast,
            FieldOptions::Numeric(o) => o.fast,
        }
    }

    /// Whether the field is stored by column.
    #[verifier::when_used_as_spec(spec_is_fast)]
    pub fn is_fast(&self) -> (r: bool)
        ensures
            r == self.spec_is_fast(),
    {
        match &self.options {
            FieldOptions::Text(o) => o.fast,
            FieldOptions::Numeric(o) => o.fast,
        }
    }
}

/// Whether a name can be the name of a field: it is not empty and does not
/// begin with `-`.
pub open spec fn valid_field_name(name: Seq<char>) -> bool {
    name.len() > 0 && name[0] != '-'
}

/// `tantivy::schema::is_valid_field_name`: a name is valid when it has at
/// least one character and does not start with `-`.
#[verifier::external_body]
fn engine_accepts_field_name(name: &str) -> (r: bool)
    ensures
        r == valid_field_name(name@),
{
    tantivy::schema::is_valid_field_name(name)
}

/// Whether a name can be the name of a field.
pub fn is_valid_field_name(name: &str) -> (r: bool)
    ensures
        r == valid_field_name(name@),
{
    engine_accepts_field_name(name)
}

/// The position of the first entry of the given name, if there is one.
pub open spec fn position_of(entries: Seq<FieldEntry>, name: Seq<char>) -> Option<int>
    decreases entries.len(),
{
    if entries.len() == 0 {
        None
    } else {
        match position_of(entries.drop_last(), name) {
            Some(i) => Some(i),
            None => if entries.last().name@ == name {
                Some(entries.len() - 1)
            } else {
                None
            },
        }
    }
}

/// What `position_of` finds is an entry of that name, and no entry before
/// it has the name; what it does not find is not there.
pub proof fn lemma_position_of(entries: Seq<FieldEntry>, name: Seq<char>)
    ensures
        match position_of(entries, name) {
            Some(i) => 0 <= i < entries.len() && entries[i].name@ == name && forall|j: int|
                0 <= j < i ==> entries[j].name@ != name,
            None => forall|j: int| 0 <= j < entries.len() ==> entries[j].name@ != name,
        },
    decreases entries.len(),
{
    if entries.len() > 0 {
        let front = entries.drop_last();
        lemma_position_of(front, name);
        assert(forall|j: int| 0 <= j < front.len() ==> front[j] == entries[j]);
    }
}

/// No two entries have the same name, and every name is valid.
pub open spec fn well_formed(entries: Seq<FieldEntry>) -> bool {
    &&& entries.len() <= u32::MAX
    &&& forall|i: int| 0 <= i < entries.len() ==> valid_field_name(#[trigger] entries[i].name@)
    &&& forall|i: int, j: int|
        0 <= i < j < entries.len() ==> #[trigger] entries[i].name@ != #[trigger] entries[j].name@
}

/// Looks a name up in a list of entries.
pub fn find_entry(entries: &Vec<FieldEntry>, name: &str) -> (r: Option<usize>)
    ensures
        match r {
            Some(i) => i < entries@.len() && position_of(entries@, name@) == Some(i as int),
            None => position_of(entries@, name@) is None,
        },
{
    let mut i: usize = 0;
    while i < entries.len()
        invariant
            i <= entries.len(),
            position_of(entries@.take(i as int), name@) is None,
        decreases entries.len() - i,
    {
        proof {
            assert(entries@.take(i + 1).drop_last() =~= entries@.take(i as int));
        }
        if same_text(entries[i].name.as_str(), name) {
            proof {
                lemma_found_stays(entries@, name@, i as int);
            }
            return Some(i);
        }
        i += 1;
    }
    proof {
        assert(entries@.take(i as int) =~= entries@);
    }
    None
}

/// An entry found in a prefix is the entry found in the whole list.
pub proof fn lemma_found_stays(entries: Seq<FieldEntry>, name: Seq<char>, i: int)
    requires
        0 <= i < entries.len(),
        position_of(entries.take(i + 1), name) == Some(i),
    ensures
        position_of(entries, name) == Some(i),
    decreases entries.len(),
{
    if i + 1 < entries.len() {
        assert(entries.drop_last().take(i + 1) =~= entries.take(i + 1));
        lemma_found_stays(entries.drop_last(), name, i);
    } else {
        assert(entries.take(i + 1) =~= entries);
    }
}

/// The fields of an index, in the order of their declaration. A field is
/// identified by its position.
#[derive(Debug, PartialEq, Eq)]
pub struct Schema {
    fields: Vec<FieldEntry>,
}

impl Schema {
    #[verifier::type_invariant]
    spec fn inv(&self) -> bool {
        well_formed(self.fields@)
    }

    /// The declared fields.
    pub closed spec fn entries(&self) -> Seq<FieldEntry> {
        self.fields@
    }

    /// The declared type of the field of the given name.
    pub open spec fn type_of(&self, name: Seq<char>) -> Option<FieldType> {
        match position_of(self.entries(), name) {
            Some(i) => Some(self.entries()[i].field_type),
            None => None,
        }
    }

    /// A schema of the given fields.
    pub fn new(fields: Vec<FieldEntry>) -> (r: Option<Schema>)
        ensures
            r is Some <==> well_formed(fields@),
            r matches Some(s) ==> s.entries() == fields@,
    {
        if fields.len() > u32::MAX as usize {
            return None;
        }
        let mut i: usize = 0;
        while i < fields.len()
            invariant
                i <= fields.len(),
                fields.len() <= u32::MAX,
                well_formed(fields@.take(i as int)),
            decreases fields.len() - i,
        {
            let ok = is_valid_field_name(fields[i].name.as_str());
            let mut j: usize = 0;
            let mut fresh = true;
            while j < i
                invariant
                    j <= i < fields.len(),
                    fresh == forall|k: int| 0 <= k < j ==> fields@[k].name@ != fields@[i as int].name@,
                decreases i - j,
            {
                if same_text(fields[j].name.as_str(), fields[i].name.as_str()) {
                    fresh = false;
                }
                j += 1;
            }
            if !ok || !fresh {
                return None;
            }
            proof {
                let s = fields@.take(i + 1);
                assert forall|a: int, b: int| 0 <= a < b < s.len() implies #[trigger] s[a].name@
                    != #[trigger] s[b].name@ by {
                    if b < i {
                        assert(fields@.take(i as int)[a].name@ != fields@.take(i as int)[b].name@);
                    }
                }
                assert forall|a: int| 0 <= a < s.len() implies valid_field_name(
                    #[trigger] s[a].name@,
                ) by {
                    if a < i {
                        assert(valid_field_name(fields@.take(i as int)[a].name@));
                    }
                }
            }
            i += 1;
        }
        proof {
            assert(fields@.take(i as int) =~= fields@);
        }
        Some(Schema { fields })
    }

    /// A copy of the schema.
    pub fn duplicate(&self) -> (r: Schema)
        ensures
            r.entries() == self.entries(),
    {
        proof {
            use_type_invariant(self);
        }
        let mut fields: Vec<FieldEntry> = Vec::new();
        let mut i: usize = 0;
        while i < self.fields.len()
            invariant
                i <= self.fields.len(),
                fields@ == self.fields@.take(i as int),
            decreases self.fields.len() - i,
        {
            fields.push(self.fields[i].duplicate());
            assert(fields@ =~= self.fields@.take(i + 1));
            i += 1;
        }
        assert(fields@ =~= self.fields@);
        Schema { fields }
    }

    /// The number of fields.
    pub fn num_fields(&self) -> (n: u32)
        ensures
            n == self.entries().len(),
    {
        proof {
            use_type_invariant(self);
        }
        self.fields.len() as u32
    }

    /// The names of the fields, in the order of their declaration.
    pub fn field_names(&self) -> (r: Vec<String>)
        ensures
            r@.len() == self.entries().len(),
            forall|i: int| 0 <= i < r@.len() ==> r@[i]@ == self.entries()[i].name@,
    {
        let mut out: Vec<String> = Vec::new();
        let mut i: usize = 0;
        while i < self.fields.len()
            invariant
                i <= self.fields.len(),
                out@.len() == i,
                forall|j: int| 0 <= j < i ==> out@[j]@ == self.fields@[j].name@,
            decreases self.fields.len() - i,
        {
            out.push(self.fields[i].name.clone());
            i += 1;
        }
        out
    }

    /// The identifier of the field of the given name.
    pub fn get_field(&self, field_name: &str) -> (r: Result<u32, Error>)
        ensures
            match r {
                Ok(id) => position_of(self.entries(), field_name@) == Some(id as int),
                Err(e) => position_of(self.entries(), field_name@) is None && e@ == about(
                    ErrorKind::FieldDoesNotExist,
                    field_name@,
                ),
            },
    {
        proof {
            use_type_invariant(self);
            lemma_position_of(self.fields@, field_name@);
        }
        match find_entry(&self.fields, field_name) {
            Some(i) => Ok(i as u32),
            None => Err(Error::new(ErrorKind::FieldDoesNotExist, field_name)),
        }
    }

    /// The entry of a field.
    pub fn get_field_entry(&self, field: u32) -> (r: Option<&FieldEntry>)
        ensures
            r is Some <==> field < self.entries().len(),
            r matches Some(e) ==> *e == self.entries()[field as int],
    {
        if (field as usize) < self.fields.len() {
            Some(&self.fields[field as usize])
        } else {
            None
        }
    }

    /// The declared type of the field of the given name.
    pub fn get_field_type(&self, field_name: &str) -> (r: Result<FieldType, Error>)
        ensures
            match self.type_of(field_name@) {
                Some(t) => r == Ok::<FieldType, Error>(t),
                None => r matches Err(e) && e@ == about(ErrorKind::FieldDoesNotExist, field_name@),
            },
    {
        proof {
            lemma_position_of(self.fields@, field_name@);
        }
        match find_entry(&self.fields, field_name) {
            Some(i) => {
                Ok(self.fields[i].field_type)
            },
            None => Err(Error::new(ErrorKind::FieldDoesNotExist, field_name)),
        }
    }

    /// Whether the schema declares a field of the given name.
    pub fn has_field(&self, field_name: &str) -> (r: bool)
        ensures
            r == position_of(self.entries(), field_name@).is_some(),
    {
        find_entry(&self.fields, field_name).is_some()
    }
}

impl Clone for Schema {
    fn clone(&self) -> (r: Schema)
        ensures
            r.entries() == self.entries(),
    {
        self.duplicate()
    }
}

} // verus!
