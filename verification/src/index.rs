//! The index handle's own decisions: where an index is kept, how its
//! reader and writer are configured, what a query parser is set up with,
//! and whether a writer handle still takes operations.

use crate::error::{about, bare, Error, ErrorKind, ErrorView};
use crate::host::HostValue;
use crate::schema::{lemma_position_of, position_of, FieldEntry, Schema};
use crate::term::{make_term, term_of, term_outcome, Term};
use crate::text::{lowercase_of, same_text, to_lowercase};
use vstd::prelude::*;

verus! {

/// The heap a writer works with where the caller names none, in bytes.
pub const DEFAULT_HEAP_SIZE: u32 = 128_000_000;

/// The reload policy of a reader where the caller names none.
pub const RELOAD_POLICY: &'static str = "commit";

/// Where an index is kept.
#[derive(Clone, Debug, PartialEq, Eq)]
pub enum IndexStorage {
    /// In memory.
    InMemory,
    /// In a directory; an index that is there is opened, else one is created.
    OpenOrCreate { path: String },
    /// In a directory, created anew.
    Create { path: String },
}

/// What an `IndexStorage` stands for.
pub enum IndexStorageView {
    InMemory,
    OpenOrCreate { path: Seq<char> },
    Create { path: Seq<char> },
}

impl View for IndexStorage {
    type V = IndexStorageView;

    open spec fn view(&self) -> IndexStorageView {
        match self {
            IndexStorage::InMemory => IndexStorageView::InMemory,
            IndexStorage::OpenOrCreate { path } => IndexStorageView::OpenOrCreate { path: path@ },
            IndexStorage::Create { path } => IndexStorageView::Create { path: path@ },
        }
    }
}

/// Where a new index handle keeps its index: in memory if no path is
/// given; else in the directory, reusing an index that is there unless
/// `reuse` is false.
pub fn storage_for(path: Option<&str>, reuse: Option<bool>) -> (s: IndexStorage)
    ensures
        s@ == match path {
            None => IndexStorageView::InMemory,
            Some(p) => if reuse != Some(false) {
                IndexStorageView::OpenOrCreate { path: p@ }
            } else {
                IndexStorageView::Create { path: p@ }
            },
        },
{
    let reuse = match reuse {
        Some(b) => b,
        None => true,
    };
    match path {
        None => IndexStorage::InMemory,
        Some(p) => if reuse {
            IndexStorage::OpenOrCreate { path: p.to_owned() }
        } else {
            IndexStorage::Create { path: p.to_owned() }
        },
    }
}

/// How a writer is made: the heap it works with, and the number of its
/// threads, which the engine chooses where it is `None`.
#[derive(Clone, Copy, Debug, PartialEq, Eq, Structural)]
pub struct WriterConfig {
    pub heap_size: usize,
    pub num_threads: Option<usize>,
}

/// The configuration of a writer: a heap of 128 MB where none is given; as
/// many threads as given, the engine's choice where none or 0 is given.
pub fn writer_config(heap_size: Option<u32>, num_threads: Option<u32>) -> (c: WriterConfig)
    ensures
        c.heap_size == match heap_size {
            Some(n) => n,
            None => DEFAULT_HEAP_SIZE,
        },
        c.num_threads == match num_threads {
            Some(n) => if n == 0 {
                None
            } else {
                Some(n as usize)
            },
            None => None,
        },
{
    WriterConfig {
        heap_size: match heap_size {
            Some(n) => n as usize,
            None => DEFAULT_HEAP_SIZE as usize,
        },
        num_threads: match num_threads {
            Some(n) => if n == 0 {
                None
            } else {
                Some(n as usize)
            },
            None => None,
        },
    }
}

/// When a reader looks for new commits.
#[derive(Clone, Copy, Debug, PartialEq, Eq, Structural)]
pub enum ReloadPolicy {
    /// Only when it is told to reload.
    Manual,
    /// Shortly after each commit.
    OnCommitWithDelay,
}

/// How a reader is made: its reload policy, and the number of its warming
/// threads, which the engine chooses where it is `None`.
#[derive(Clone, Copy, Debug, PartialEq, Eq, Structural)]
pub struct ReaderConfig {
    pub reload_policy: ReloadPolicy,
    pub num_warming_threads: Option<usize>,
}

/// The reload policy that a name in lower case stands for.
pub open spec fn reload_policy_named(lowered: Seq<char>) -> Option<ReloadPolicy> {
    if lowered == "commit"@ || lowered == "on-commit"@ || lowered == "oncommit"@ {
        Some(ReloadPolicy::OnCommitWithDelay)
    } else if lowered == "manual"@ {
        Some(ReloadPolicy::Manual)
    } else {
        None
    }
}

/// The configuration of a reader: the policy that the name stands for,
/// whatever its case (`commit` where none is given), and as many warming
/// threads as given, the engine's choice where none or 0 is given.
pub open spec fn reader_config_of(reload_policy: Option<Seq<char>>, num_warmers: Option<u32>)
    -> Result<ReaderConfig, ErrorView> {
    let name = match reload_policy {
        Some(n) => n,
        None => RELOAD_POLICY@,
    };
    match reload_policy_named(lowercase_of(name)) {
        None => Err(about(ErrorKind::InvalidReloadPolicy, name)),
        Some(policy) => Ok(
            ReaderConfig {
                reload_policy: policy,
                num_warming_threads: match num_warmers {
                    Some(n) => if n == 0 {
                        None
                    } else {
                        Some(n as usize)
                    },
                    None => None,
                },
            },
        ),
    }
}

/// The configuration of a reader.
pub fn config_reader(reload_policy: Option<&str>, num_warmers: Option<u32>) -> (r: Result<
    ReaderConfig,
    Error,
>)
    ensures
        match reader_config_of(
            match reload_policy {
                Some(n) => Some(n@),
                None => None,
            },
            num_warmers,
        ) {
            Ok(c) => r == Ok::<ReaderConfig, Error>(c),
            Err(e) => r matches Err(err) && err@ == e,
        },
{
    let name = match reload_policy {
        Some(n) => n,
        None => RELOAD_POLICY,
    };
    let lowered = to_lowercase(name);
    let policy = if same_text(lowered.as_str(), "commit") || same_text(
        lowered.as_str(),
        "on-commit",
    ) || same_text(lowered.as_str(), "oncommit") {
        ReloadPolicy::OnCommitWithDelay
    } else if same_text(lowered.as_str(), "manual") {
        ReloadPolicy::Manual
    } else {
        return Err(Error::new(ErrorKind::InvalidReloadPolicy, name));
    };
    Ok(
        ReaderConfig {
            reload_policy: policy,
            num_warming_threads: match num_warmers {
                Some(n) => if n == 0 {
                    None
                } else {
                    Some(n as usize)
                },
                None => None,
            },
        },
    )
}

/// How a field is searched approximately: against prefixes or whole terms,
/// within an edit distance, a transposition counting as one edit or two.
#[derive(Clone, Copy, Debug, PartialEq, Eq, Structural)]
pub struct Fuzziness {
    pub prefix: bool,
    pub distance: u8,
    pub transpose_cost_one: bool,
}

/// What a query parser is set up with: the fields searched where a query
/// names none, the boost of fields (floats, held by their bit patterns),
/// and the fields that are searched approximately.
#[derive(Clone, Debug, PartialEq, Eq)]
pub struct QueryParserConfig {
    pub default_fields: Vec<u32>,
    pub field_boosts: Vec<(u32, u64)>,
    pub fuzzy_fields: Vec<(u32, Fuzziness)>,
}

/// What a `QueryParserConfig` stands for.
pub struct QueryParserConfigView {
    pub default_fields: Seq<u32>,
    pub field_boosts: Seq<(u32, u64)>,
    pub fuzzy_fields: Seq<(u32, Fuzziness)>,
}

impl View for QueryParserConfig {
    type V = QueryParserConfigView;

    open spec fn view(&self) -> QueryParserConfigView {
        QueryParserConfigView {
            default_fields: self.default_fields@,
            field_boosts: self.field_boosts@,
            fuzzy_fields: self.fuzzy_fields@,
        }
    }
}

/// The indexed fields of a schema, in the order of their declaration.
pub open spec fn indexed_fields(entries: Seq<FieldEntry>) -> Seq<u32>
    decreases entries.len(),
{
    if entries.len() == 0 {
        Seq::empty()
    } else if entries.last().spec_is_indexed() {
        indexed_fields(entries.drop_last()).push((entries.len() - 1) as u32)
    } else {
        indexed_fields(entries.drop_last())
    }
}

/// The field of a name that a query parser is to search by default: it
/// must be declared, and indexed.
pub open spec fn default_field(entries: Seq<FieldEntry>, name: Seq<char>) -> Result<
    u32,
    ErrorView,
> {
    match position_of(entries, name) {
        None => Err(about(ErrorKind::FieldDoesNotExist, name)),
        Some(i) => if entries[i].spec_is_indexed() {
            Ok(i as u32)
        } else {
            Err(about(ErrorKind::FieldNotIndexed, name))
        },
    }
}

/// The fields of a list of names to search by default, or the error of
/// the first name that has one.
pub open spec fn named_default_fields(entries: Seq<FieldEntry>, names: Seq<Seq<char>>) -> Result<
    Seq<u32>,
    ErrorView,
>
    decreases names.len(),
{
    if names.len() == 0 {
        Ok(Seq::empty())
    } else {
        match named_default_fields(entries, names.drop_last()) {
            Err(e) => Err(e),
            Ok(fields) => match default_field(entries, names.last()) {
                Err(e) => Err(e),
                Ok(field) => Ok(fields.push(field)),
            },
        }
    }
}

/// The settings of a list of named fields, each under the field's
/// identifier, or the error of the first name that is not declared.
pub open spec fn resolved<T>(entries: Seq<FieldEntry>, settings: Seq<(Seq<char>, T)>) -> Result<
    Seq<(u32, T)>,
    ErrorView,
>
    decreases settings.len(),
{
    if settings.len() == 0 {
        Ok(Seq::empty())
    } else {
        match resolved(entries, settings.drop_last()) {
            Err(e) => Err(e),
            Ok(done) => match position_of(entries, settings.last().0) {
                None => Err(about(ErrorKind::FieldDoesNotExist, settings.last().0)),
                Some(i) => Ok(done.push((i as u32, settings.last().1))),
            },
        }
    }
}

/// The views of a list of named settings.
pub open spec fn setting_views<T>(settings: Seq<(String, T)>) -> Seq<(Seq<char>, T)> {
    Seq::new(settings.len(), |i: int| (settings[i].0@, settings[i].1))
}

/// What a query parser is set up with.
///
/// The default fields are the named ones, each declared and indexed, or
/// every indexed field where none is named. Then the boosts are resolved,
/// then the approximate fields; the first error ends the work.
pub open spec fn parser_config_of(
    entries: Seq<FieldEntry>,
    default_field_names: Option<Seq<Seq<char>>>,
    field_boosts: Option<Seq<(Seq<char>, u64)>>,
    fuzzy_fields: Option<Seq<(Seq<char>, Fuzziness)>>,
) -> Result<QueryParserConfigView, ErrorView> {
    let defaults = match default_field_names {
        Some(names) => named_default_fields(entries, names),
        None => Ok(indexed_fields(entries)),
    };
    match defaults {
        Err(e) => Err(e),
        Ok(default_fields) => match resolved(
            entries,
            match field_boosts {
                Some(b) => b,
                None => Seq::empty(),
            },
        ) {
            Err(e) => Err(e),
            Ok(boosts) => match resolved(
                entries,
                match fuzzy_fields {
                    Some(f) => f,
                    None => Seq::empty(),
                },
            ) {
                Err(e) => Err(e),
                Ok(fuzzy) => Ok(
                    QueryParserConfigView {
                        default_fields,
                        field_boosts: boosts,
                        fuzzy_fields: fuzzy,
                    },
                ),
            },
        },
    }
}

/// The error of a name is the error of the list, if the names before it
/// have none.
pub proof fn lemma_first_default_error(
    entries: Seq<FieldEntry>,
    names: Seq<Seq<char>>,
    i: int,
    e: ErrorView,
)
    requires
        0 <= i < names.len(),
        named_default_fields(entries, names.take(i)) is Ok,
        default_field(entries, names[i]) == Err::<u32, ErrorView>(e),
    ensures
        named_default_fields(entries, names) == Err::<Seq<u32>, ErrorView>(e),
    decreases names.len(),
{
    if i < names.len() - 1 {
        assert(names.drop_last().take(i) =~= names.take(i));
        lemma_first_default_error(entries, names.drop_last(), i, e);
    } else {
        assert(names.drop_last() =~= names.take(i));
    }
}

/// The error of a setting is the error of the list, if the settings before
/// it have none.
pub proof fn lemma_first_unresolved<T>(
    entries: Seq<FieldEntry>,
    settings: Seq<(Seq<char>, T)>,
    i: int,
)
    requires
        0 <= i < settings.len(),
        resolved(entries, settings.take(i)) is Ok,
        position_of(entries, settings[i].0) is None,
    ensures
        resolved(entries, settings) == Err::<Seq<(u32, T)>, ErrorView>(
            about(ErrorKind::FieldDoesNotExist, settings[i].0),
        ),
    decreases settings.len(),
{
    if i < settings.len() - 1 {
        assert(settings.drop_last().take(i) =~= settings.take(i));
        lemma_first_unresolved(entries, settings.drop_last(), i);
    } else {
        assert(settings.drop_last() =~= settings.take(i));
    }
}

/// Every indexed field of the schema.
fn all_indexed_fields(schema: &Schema) -> (r: Vec<u32>)
    ensures
        r@ == indexed_fields(schema.entries()),
{
    let n = schema.num_fields();
    let ghost entries = schema.entries();
    let mut out: Vec<u32> = Vec::new();
    let mut i: u32 = 0;
    while i < n
        invariant
            i <= n,
            n == entries.len(),
            entries == schema.entries(),
            out@ == indexed_fields(entries.take(i as int)),
        decreases n - i,
    {
        proof {
            assert(entries.take(i + 1).drop_last() =~= entries.take(i as int));
        }
        let indexed = match schema.get_field_entry(i) {
            Some(entry) => entry.is_indexed(),
            None => false,
        };
        if indexed {
            out.push(i);
        }
        i += 1;
    }
    proof {
        assert(entries.take(i as int) =~= entries);
    }
    out
}

/// The fields of the names to search by default.
fn resolve_default_fields(schema: &Schema, names: &Vec<String>) -> (r: Result<Vec<u32>, Error>)
    ensures
        match named_default_fields(schema.entries(), crate::text::text_views(names@)) {
            Ok(fields) => r matches Ok(out) && out@ == fields,
            Err(e) => r matches Err(err) && err@ == e,
        },
{
    let ghost all = crate::text::text_views(names@);
    let mut out: Vec<u32> = Vec::new();
    let mut i: usize = 0;
    proof {
        assert(all.take(0) =~= Seq::empty());
    }
    while i < names.len()
        invariant
            i <= names.len(),
            all == crate::text::text_views(names@),
            named_default_fields(schema.entries(), all.take(i as int)) == Ok::<
                Seq<u32>,
                ErrorView,
            >(out@),
        decreases names.len() - i,
    {
        proof {
            assert(all.take(i + 1).drop_last() =~= all.take(i as int));
            assert(all.take(i + 1).last() == names@[i as int]@);
            lemma_position_of(schema.entries(), names@[i as int]@);
        }
        let name = names[i].as_str();
        let field = match schema.get_field(name) {
            Ok(field) => field,
            Err(e) => {
                proof {
                    lemma_first_default_error(schema.entries(), all, i as int, e@);
                }
                return Err(e);
            },
        };
        let indexed = match schema.get_field_entry(field) {
            Some(entry) => entry.is_indexed(),
            None => false,
        };
        if !indexed {
            let e = Error::new(ErrorKind::FieldNotIndexed, name);
            proof {
                lemma_first_default_error(schema.entries(), all, i as int, e@);
            }
            return Err(e);
        }
        out.push(field);
        i += 1;
    }
    proof {
        assert(all.take(i as int) =~= all);
    }
    Ok(out)
}

/// The settings of named fields, each under the field's identifier.
fn resolve<T: Copy>(schema: &Schema, settings: &Vec<(String, T)>) -> (r: Result<
    Vec<(u32, T)>,
    Error,
>)
    ensures
        match resolved(schema.entries(), setting_views(settings@)) {
            Ok(done) => r matches Ok(out) && out@ == done,
            Err(e) => r matches Err(err) && err@ == e,
        },
{
    let ghost all = setting_views(settings@);
    let mut out: Vec<(u32, T)> = Vec::new();
    let mut i: usize = 0;
    proof {
        assert(all.take(0) =~= Seq::empty());
    }
    while i < settings.len()
        invariant
            i <= settings.len(),
            all == setting_views(settings@),
            resolved(schema.entries(), all.take(i as int)) == Ok::<Seq<(u32, T)>, ErrorView>(
                out@,
            ),
        decreases settings.len() - i,
    {
        proof {
            assert(all.take(i + 1).drop_last() =~= all.take(i as int));
            assert(all.take(i + 1).last() == (settings@[i as int].0@, settings@[i as int].1));
            lemma_position_of(schema.entries(), settings@[i as int].0@);
        }
        let field = match schema.get_field(settings[i].0.as_str()) {
            Ok(field) => field,
            Err(e) => {
                proof {
                    lemma_first_unresolved(schema.entries(), all, i as int);
                }
                return Err(e);
            },
        };
        out.push((field, settings[i].1));
        i += 1;
    }
    proof {
        assert(all.take(i as int) =~= all);
    }
    Ok(out)
}

/// Works out what a query parser is set up with.
pub fn prepare_query_parser(
    schema: &Schema,
    default_field_names: Option<&Vec<String>>,
    field_boosts: Option<&Vec<(String, u64)>>,
    fuzzy_fields: Option<&Vec<(String, Fuzziness)>>,
) -> (r: Result<QueryParserConfig, Error>)
    ensures
        match parser_config_of(
            schema.entries(),
            match default_field_names {
                Some(names) => Some(crate::text::text_views(names@)),
                None => None,
            },
            match field_boosts {
                Some(b) => Some(setting_views(b@)),
                None => None,
            },
            match fuzzy_fields {
                Some(f) => Some(setting_views(f@)),
                None => None,
            },
        ) {
            Ok(c) => r matches Ok(out) && out@ == c,
            Err(e) => r matches Err(err) && err@ == e,
        },
{
    let default_fields = match default_field_names {
        Some(names) => match resolve_default_fields(schema, names) {
            Ok(fields) => fields,
            Err(e) => {
                return Err(e);
            },
        },
        None => all_indexed_fields(schema),
    };
    let boosts = match field_boosts {
        Some(b) => match resolve(schema, b) {
            Ok(done) => done,
            Err(e) => {
                return Err(e);
            },
        },
        None => Vec::new(),
    };
    let fuzzy = match fuzzy_fields {
        Some(f) => match resolve(schema, f) {
            Ok(done) => done,
            Err(e) => {
                return Err(e);
            },
        },
        None => Vec::new(),
    };
    Ok(QueryParserConfig { default_fields, field_boosts: boosts, fuzzy_fields: fuzzy })
}

/// Whether a writer handle still takes operations.
#[derive(Clone, Copy, Debug, PartialEq, Eq, Structural)]
pub enum WriterState {
    /// It does.
    Live,
    /// It was released with `wait_merging_threads`, and takes none.
    Consumed,
}

/// An operation on a writer handle.
#[derive(Clone, Copy, Debug, PartialEq, Eq, Structural)]
pub enum WriterOp {
    AddDocument,
    AddJson,
    Commit,
    Rollback,
    GarbageCollectFiles,
    DeleteAllDocuments,
    CommitOpstamp,
    DeleteDocumentsByTerm,
    DeleteDocumentsByQuery,
    WaitMergingThreads,
}

/// Whether a handle in a state takes an operation: a live one does, a
/// consumed one fails.
pub open spec fn admitted(state: WriterState, op: WriterOp) -> Result<(), ErrorView> {
    match state {
        WriterState::Live => Ok(()),
        WriterState::Consumed => Err(bare(ErrorKind::WriterConsumed)),
    }
}

/// The state of a handle after an operation: waiting for the merging
/// threads consumes a live handle; nothing else changes the state.
pub open spec fn state_after(state: WriterState, op: WriterOp) -> WriterState {
    match state {
        WriterState::Live => if op == WriterOp::WaitMergingThreads {
            WriterState::Consumed
        } else {
            WriterState::Live
        },
        WriterState::Consumed => WriterState::Consumed,
    }
}

/// The state of a handle after a run of operations.
pub open spec fn state_after_all(state: WriterState, ops: Seq<WriterOp>) -> WriterState
    decreases ops.len(),
{
    if ops.len() == 0 {
        state
    } else {
        state_after(state_after_all(state, ops.drop_last()), ops.last())
    }
}

/// Once a handle is consumed, whatever operations have followed, it is
/// consumed, and the next operation fails as a failure of the engine.
pub proof fn lemma_consumed_is_final(ops: Seq<WriterOp>, next: WriterOp)
    ensures
        state_after_all(WriterState::Consumed, ops) == WriterState::Consumed,
        admitted(state_after_all(WriterState::Consumed, ops), next) == Err::<(), ErrorView>(
            bare(ErrorKind::WriterConsumed),
        ),
        ErrorKind::WriterConsumed.spec_status() == crate::error::Status::GenericFailure,
    decreases ops.len(),
{
    if ops.len() > 0 {
        lemma_consumed_is_final(ops.drop_last(), ops.last());
    }
}

/// A handle on the writer of an index. It decides whether an operation is
/// taken; the engine's writer does the work.
#[derive(Debug)]
pub struct IndexWriter {
    state: WriterState,
    schema: Schema,
}

impl IndexWriter {
    /// The state of the handle.
    pub closed spec fn state(&self) -> WriterState {
        self.state
    }

    /// The fields of the index that the writer writes to.
    pub closed spec fn entries(&self) -> Seq<FieldEntry> {
        self.schema.entries()
    }

    /// A live handle on a writer of an index with the given schema.
    pub fn new(schema: Schema) -> (w: IndexWriter)
        ensures
            w.state() == WriterState::Live,
            w.entries() == schema.entries(),
    {
        IndexWriter { state: WriterState::Live, schema }
    }

    /// Whether the handle still takes operations.
    pub fn is_live(&self) -> (r: bool)
        ensures
            r == (self.state() == WriterState::Live),
    {
        match self.state {
            WriterState::Live => true,
            WriterState::Consumed => false,
        }
    }

    /// The schema of the index that the writer writes to.
    pub fn schema(&self) -> (s: &Schema)
        ensures
            s.entries() == self.entries(),
    {
        &self.schema
    }

    /// Takes or refuses an operation.
    pub fn take_op(&mut self, op: WriterOp) -> (r: Result<(), Error>)
        ensures
            final(self).state() == state_after(old(self).state(), op),
            final(self).entries() == old(self).entries(),
            match admitted(old(self).state(), op) {
                Ok(_) => r is Ok,
                Err(e) => r matches Err(err) && err@ == e,
            },
    {
        match self.state {
            WriterState::Consumed => Err(Error::bare(ErrorKind::WriterConsumed)),
            WriterState::Live => {
                if op == WriterOp::WaitMergingThreads {
                    self.state = WriterState::Consumed;
                }
                Ok(())
            },
        }
    }

    /// Takes or refuses the addition of a document.
    pub fn add_document(&mut self) -> (r: Result<(), Error>)
        ensures
            final(self).state() == old(self).state(),
            final(self).entries() == old(self).entries(),
            match admitted(old(self).state(), WriterOp::AddDocument) {
                Ok(_) => r is Ok,
                Err(e) => r matches Err(err) && err@ == e,
            },
    {
        self.take_op(WriterOp::AddDocument)
    }

    /// Takes or refuses the addition of a document given as JSON.
    pub fn add_json(&mut self) -> (r: Result<(), Error>)
        ensures
            final(self).state() == old(self).state(),
            final(self).entries() == old(self).entries(),
            match admitted(old(self).state(), WriterOp::AddJson) {
                Ok(_) => r is Ok,
                Err(e) => r matches Err(err) && err@ == e,
            },
    {
        self.take_op(WriterOp::AddJson)
    }

    /// Takes or refuses a commit.
    pub fn commit(&mut self) -> (r: Result<(), Error>)
        ensures
            final(self).state() == old(self).state(),
            final(self).entries() == old(self).entries(),
            match admitted(old(self).state(), WriterOp::Commit) {
                Ok(_) => r is Ok,
                Err(e) => r matches Err(err) && err@ == e,
            },
    {
        self.take_op(WriterOp::Commit)
    }

    /// Takes or refuses a rollback.
    pub fn rollback(&mut self) -> (r: Result<(), Error>)
        ensures
            final(self).state() == old(self).state(),
            final(self).entries() == old(self).entries(),
            match admitted(old(self).state(), WriterOp::Rollback) {
                Ok(_) => r is Ok,
                Err(e) => r matches Err(err) && err@ == e,
            },
    {
        self.take_op(WriterOp::Rollback)
    }

    /// Takes or refuses the removal of files that the index uses no more.
    pub fn garbage_collect_files(&mut self) -> (r: Result<(), Error>)
        ensures
            final(self).state() == old(self).state(),
            final(self).entries() == old(self).entries(),
            match admitted(old(self).state(), WriterOp::GarbageCollectFiles) {
                Ok(_) => r is Ok,
                Err(e) => r matches Err(err) && err@ == e,
            },
    {
        self.take_op(WriterOp::GarbageCollectFiles)
    }

    /// Takes or refuses the deletion of every document.
    pub fn delete_all_documents(&mut self) -> (r: Result<(), Error>)
        ensures
            final(self).state() == old(self).state(),
            final(self).entries() == old(self).entries(),
            match admitted(old(self).state(), WriterOp::DeleteAllDocuments) {
                Ok(_) => r is Ok,
                Err(e) => r matches Err(err) && err@ == e,
            },
    {
        self.take_op(WriterOp::DeleteAllDocuments)
    }

    /// Takes or refuses the question for the opstamp of the last commit.
    pub fn commit_opstamp(&self) -> (r: Result<(), Error>)
        ensures
            match admitted(self.state(), WriterOp::CommitOpstamp) {
                Ok(_) => r is Ok,
                Err(e) => r matches Err(err) && err@ == e,
            },
    {
        match self.state {
            WriterState::Live => Ok(()),
            WriterState::Consumed => Err(Error::bare(ErrorKind::WriterConsumed)),
        }
    }

    /// Takes or refuses the deletion of the documents that hold a term, and
    /// builds the term: that of the host value on the named field.
    pub fn delete_documents_by_term(&mut self, field_name: &str, field_value: &HostValue) -> (r:
        Result<Term, Error>)
        ensures
            final(self).state() == old(self).state(),
            final(self).entries() == old(self).entries(),
            term_outcome(r) == match admitted(old(self).state(), WriterOp::DeleteDocumentsByTerm) {
                Err(e) => Err(e),
                Ok(_) => term_of(old(self).entries(), field_name@, field_value@),
            },
    {
        match self.take_op(WriterOp::DeleteDocumentsByTerm) {
            Err(e) => Err(e),
            Ok(_) => make_term(&self.schema, field_name, field_value),
        }
    }

    /// Takes or refuses the deletion of the documents that match a query.
    pub fn delete_documents_by_query(&mut self) -> (r: Result<(), Error>)
        ensures
            final(self).state() == old(self).state(),
            final(self).entries() == old(self).entries(),
            match admitted(old(self).state(), WriterOp::DeleteDocumentsByQuery) {
                Ok(_) => r is Ok,
                Err(e) => r matches Err(err) && err@ == e,
            },
    {
        self.take_op(WriterOp::DeleteDocumentsByQuery)
    }

    /// Takes or refuses the wait for the merging threads, which releases
    /// the writer: the handle is consumed from then on.
    pub fn wait_merging_threads(&mut self) -> (r: Result<(), Error>)
        ensures
            final(self).state() == WriterState::Consumed,
            final(self).entries() == old(self).entries(),
            match admitted(old(self).state(), WriterOp::WaitMergingThreads) {
                Ok(_) => r is Ok,
                Err(e) => r matches Err(err) && err@ == e,
            },
    {
        self.take_op(WriterOp::WaitMergingThreads)
    }
}

} // verus!
