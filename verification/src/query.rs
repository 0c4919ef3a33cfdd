//! Queries: a closed tree of query nodes, each owning its children.

use crate::error::{about, bare, Error, ErrorKind, ErrorView};
use crate::host::{host_views, HostValue, HostView};
use crate::number::{to_u64, to_u64_spec};
use crate::schema::{
    index_option_named, parse_index_option, position_of, FieldEntry, FieldType,
    IndexRecordOption, Schema,
};
use crate::searcher::DocAddress;
use crate::term::{make_term, make_term_for_type, term_bytes, term_of, term_of_type, Term};
use crate::text::{copy_texts, text_views};
use vstd::prelude::*;
use vstd::utf8::encode_utf8;

verus! {

/// Whether a clause of a boolean query must, may, or must not match.
#[derive(Clone, Copy, Debug, PartialEq, Eq, Structural)]
pub enum Occur {
    Must,
    Should,
    MustNot,
}

/// One end of a range.
#[derive(Clone, Debug, PartialEq, Eq)]
pub enum RangeBound {
    Included(Term),
    Excluded(Term),
}

/// What a `RangeBound` stands for.
pub enum BoundView {
    Included(Seq<u8>),
    Excluded(Seq<u8>),
}

impl View for RangeBound {
    type V = BoundView;

    open spec fn view(&self) -> BoundView {
        match self {
            RangeBound::Included(t) => BoundView::Included(t@),
            RangeBound::Excluded(t) => BoundView::Excluded(t@),
        }
    }
}

/// The parameters of a more-like-this query; each is left to the engine's
/// default where it is `None`. The boost factor is a float, held by its bit
/// pattern.
#[derive(Clone, Debug, PartialEq, Eq)]
pub struct MoreLikeThis {
    pub doc_address: DocAddress,
    pub min_doc_frequency: Option<u64>,
    pub max_doc_frequency: Option<u64>,
    pub min_term_frequency: Option<usize>,
    pub max_query_terms: Option<usize>,
    pub min_word_length: Option<usize>,
    pub max_word_length: Option<usize>,
    pub boost_factor: Option<u64>,
    pub stop_words: Option<Vec<String>>,
}

/// What a `MoreLikeThis` stands for.
pub struct MoreLikeThisView {
    pub doc_address: DocAddress,
    pub min_doc_frequency: Option<u64>,
    pub max_doc_frequency: Option<u64>,
    pub min_term_frequency: Option<usize>,
    pub max_query_terms: Option<usize>,
    pub min_word_length: Option<usize>,
    pub max_word_length: Option<usize>,
    pub boost_factor: Option<u64>,
    pub stop_words: Option<Seq<Seq<char>>>,
}

impl View for MoreLikeThis {
    type V = MoreLikeThisView;

    open spec fn view(&self) -> MoreLikeThisView {
        MoreLikeThisView {
            doc_address: self.doc_address,
            min_doc_frequency: self.min_doc_frequency,
            max_doc_frequency: self.max_doc_frequency,
            min_term_frequency: self.min_term_frequency,
            max_query_terms: self.max_query_terms,
            min_word_length: self.min_word_length,
            max_word_length: self.max_word_length,
            boost_factor: self.boost_factor,
            stop_words: match self.stop_words {
                Some(words) => Some(text_views(words@)),
                None => None,
            },
        }
    }
}

/// A query. Scores, boosts and tie breakers are floats, held by their bit
/// patterns.
#[derive(Debug, PartialEq, Eq)]
pub enum Query {
    Term { term: Term, index_option: IndexRecordOption },
    TermSet { terms: Vec<Term> },
    All,
    Fuzzy { term: Term, distance: u8, transposition_cost_one: bool, prefix: bool },
    Phrase { words: Vec<(usize, Term)>, slop: u32 },
    Boolean { clauses: Vec<(Occur, Query)> },
    DisjunctionMax { disjuncts: Vec<Query>, tie_breaker: Option<u64> },
    Boost { query: Box<Query>, boost: u64 },
    Regex { field: u32, pattern: String },
    MoreLikeThis { params: MoreLikeThis },
    ConstScore { query: Box<Query>, score: u64 },
    Range { lower: RangeBound, upper: RangeBound },
}

/// What a `Query` stands for.
pub enum QueryView {
    Term { term: Seq<u8>, index_option: IndexRecordOption },
    TermSet { terms: Seq<Seq<u8>> },
    All,
    Fuzzy { term: Seq<u8>, distance: u8, transposition_cost_one: bool, prefix: bool },
    Phrase { words: Seq<(usize, Seq<u8>)>, slop: u32 },
    Boolean { clauses: Seq<(Occur, QueryView)> },
    DisjunctionMax { disjuncts: Seq<QueryView>, tie_breaker: Option<u64> },
    Boost { query: Box<QueryView>, boost: u64 },
    Regex { field: u32, pattern: Seq<char> },
    MoreLikeThis { params: MoreLikeThisView },
    ConstScore { query: Box<QueryView>, score: u64 },
    Range { lower: BoundView, upper: BoundView },
}

/// The views of a list of terms.
pub open spec fn term_views(terms: Seq<Term>) -> Seq<Seq<u8>> {
    Seq::new(terms.len(), |i: int| terms[i]@)
}

/// The views of a list of terms with their offsets.
pub open spec fn offset_term_views(terms: Seq<(usize, Term)>) -> Seq<(usize, Seq<u8>)> {
    Seq::new(terms.len(), |i: int| (terms[i].0, terms[i].1@))
}

/// What a query stands for.
pub open spec fn query_view_of(q: Query) -> QueryView
    decreases q,
{
    match q {
        Query::Term { term, index_option } => QueryView::Term { term: term@, index_option },
        Query::TermSet { terms } => QueryView::TermSet { terms: term_views(terms@) },
        Query::All => QueryView::All,
        Query::Fuzzy { term, distance, transposition_cost_one, prefix } => QueryView::Fuzzy {
            term: term@,
            distance,
            transposition_cost_one,
            prefix,
        },
        Query::Phrase { words, slop } => QueryView::Phrase {
            words: offset_term_views(words@),
            slop,
        },
        Query::Boolean { clauses } => QueryView::Boolean {
            clauses: Seq::new(
                clauses@.len(),
                |i: int|
                    if 0 <= i < clauses@.len() {
                        (clauses@[i].0, query_view_of(clauses@[i].1))
                    } else {
                        (Occur::Must, QueryView::All)
                    },
            ),
        },
        Query::DisjunctionMax { disjuncts, tie_breaker } => QueryView::DisjunctionMax {
            disjuncts: Seq::new(
                disjuncts@.len(),
                |i: int|
                    if 0 <= i < disjuncts@.len() {
                        query_view_of(disjuncts@[i])
                    } else {
                        QueryView::All
                    },
            ),
            tie_breaker,
        },
        Query::Boost { query, boost } => QueryView::Boost {
            query: Box::new(query_view_of(*query)),
            boost,
        },
        Query::Regex { field, pattern } => QueryView::Regex { field, pattern: pattern@ },
        Query::MoreLikeThis { params } => QueryView::MoreLikeThis { params: params@ },
        Query::ConstScore { query, score } => QueryView::ConstScore {
            query: Box::new(query_view_of(*query)),
            score,
        },
        Query::Range { lower, upper } => QueryView::Range { lower: lower@, upper: upper@ },
    }
}

impl View for Query {
    type V = QueryView;

    open spec fn view(&self) -> QueryView {
        query_view_of(*self)
    }
}

/// The views of a list of queries.
pub open spec fn query_views(queries: Seq<Query>) -> Seq<QueryView> {
    Seq::new(queries.len(), |i: int| queries[i]@)
}

/// The views of a list of clauses.
pub open spec fn clause_views(clauses: Seq<(Occur, Query)>) -> Seq<(Occur, QueryView)> {
    Seq::new(clauses.len(), |i: int| (clauses[i].0, clauses[i].1@))
}

/// A boolean query is the views of its clauses.
pub proof fn lemma_boolean_view(clauses: Vec<(Occur, Query)>)
    ensures
        (Query::Boolean { clauses })@ == (QueryView::Boolean { clauses: clause_views(clauses@) }),
{
    let q = Query::Boolean { clauses };
    assert(q@ is Boolean);
    assert(q@->Boolean_clauses.len() == clauses@.len());
    assert(forall|j: int|
        0 <= j < clauses@.len() ==> q@->Boolean_clauses[j] == (clauses@[j].0, clauses@[j].1@));
    assert(q@->Boolean_clauses =~= clause_views(clauses@));
}

/// A disjunction is the views of its disjuncts.
pub proof fn lemma_disjunction_view(disjuncts: Vec<Query>, tie_breaker: Option<u64>)
    ensures
        (Query::DisjunctionMax { disjuncts, tie_breaker })@ == (QueryView::DisjunctionMax {
            disjuncts: query_views(disjuncts@),
            tie_breaker,
        }),
{
    let q = Query::DisjunctionMax { disjuncts, tie_breaker };
    assert(q@ is DisjunctionMax);
    assert(q@->DisjunctionMax_disjuncts.len() == disjuncts@.len());
    assert(forall|j: int|
        0 <= j < disjuncts@.len() ==> q@->DisjunctionMax_disjuncts[j] == disjuncts@[j]@);
    assert(q@->DisjunctionMax_disjuncts =~= query_views(disjuncts@));
}

/// What the outcome of building a query stands for.
pub open spec fn query_outcome(r: Result<Query, Error>) -> Result<QueryView, ErrorView> {
    match r {
        Ok(q) => Ok(q@),
        Err(e) => Err(e@),
    }
}

/// The terms of a list of host values on a field, or the error of the first
/// value that has no term.
pub open spec fn terms_of(entries: Seq<FieldEntry>, name: Seq<char>, items: Seq<HostView>) -> Result<
    Seq<Seq<u8>>,
    ErrorView,
>
    decreases items.len(),
{
    if items.len() == 0 {
        Ok(Seq::empty())
    } else {
        match terms_of(entries, name, items.drop_last()) {
            Err(e) => Err(e),
            Ok(terms) => match term_of(entries, name, items.last()) {
                Err(e) => Err(e),
                Ok(term) => Ok(terms.push(term)),
            },
        }
    }
}

/// The error of a value is the error of the list, if the values before it
/// have terms.
pub proof fn lemma_first_term_error(
    entries: Seq<FieldEntry>,
    name: Seq<char>,
    items: Seq<HostView>,
    i: int,
    e: ErrorView,
)
    requires
        0 <= i < items.len(),
        terms_of(entries, name, items.take(i)) is Ok,
        term_of(entries, name, items[i]) == Err::<Seq<u8>, ErrorView>(e),
    ensures
        terms_of(entries, name, items) == Err::<Seq<Seq<u8>>, ErrorView>(e),
    decreases items.len(),
{
    if i < items.len() - 1 {
        assert(items.drop_last().take(i) =~= items.take(i));
        lemma_first_term_error(entries, name, items.drop_last(), i, e);
    } else {
        assert(items.drop_last() =~= items.take(i));
    }
}

/// Each term with its position in the list.
pub open spec fn with_offsets(terms: Seq<Seq<u8>>) -> Seq<(usize, Seq<u8>)> {
    Seq::new(terms.len(), |i: int| (i as usize, terms[i]))
}

/// The index record option that a term query is asked with; it is
/// `position` where none is named.
pub open spec fn chosen_index_option(name: Option<Seq<char>>) -> Option<IndexRecordOption> {
    match name {
        Some(n) => index_option_named(n),
        None => Some(IndexRecordOption::WithFreqsAndPositions),
    }
}

/// The term query for a host value on a field.
pub open spec fn term_query_of(
    entries: Seq<FieldEntry>,
    name: Seq<char>,
    h: HostView,
    index_option: Option<Seq<char>>,
) -> Result<QueryView, ErrorView> {
    match term_of(entries, name, h) {
        Err(e) => Err(e),
        Ok(term) => match chosen_index_option(index_option) {
            Some(option) => Ok(QueryView::Term { term, index_option: option }),
            None => Err(bare(ErrorKind::InvalidIndexOption)),
        },
    }
}

/// The phrase query for a list of words on a field: each word at its
/// position in the list. A phrase has at least two words.
pub open spec fn phrase_query_of(
    entries: Seq<FieldEntry>,
    name: Seq<char>,
    words: Seq<HostView>,
    slop: u32,
) -> Result<QueryView, ErrorView> {
    match terms_of(entries, name, words) {
        Err(e) => Err(e),
        Ok(terms) => if terms.len() == 0 {
            Err(bare(ErrorKind::EmptyPhrase))
        } else if terms.len() == 1 {
            Err(bare(ErrorKind::PhraseTooShort))
        } else {
            Ok(QueryView::Phrase { words: with_offsets(terms), slop })
        },
    }
}

/// No words make no phrase, and one word makes none either: a phrase has
/// at least two words.
pub proof fn lemma_phrase_needs_two_words(
    entries: Seq<FieldEntry>,
    name: Seq<char>,
    words: Seq<HostView>,
    slop: u32,
)
    ensures
        words.len() == 0 ==> phrase_query_of(entries, name, words, slop) == Err::<
            QueryView,
            ErrorView,
        >(bare(ErrorKind::EmptyPhrase)),
        words.len() == 1 && term_of(entries, name, words[0]) is Ok ==> phrase_query_of(
            entries,
            name,
            words,
            slop,
        ) == Err::<QueryView, ErrorView>(bare(ErrorKind::PhraseTooShort)),
        ErrorKind::EmptyPhrase.spec_status() == crate::error::Status::InvalidArg,
        ErrorKind::PhraseTooShort.spec_status() == crate::error::Status::InvalidArg,
{
    if words.len() == 1 {
        assert(words.drop_last().len() == 0);
        assert(terms_of(entries, name, words.drop_last()) == Ok::<Seq<Seq<u8>>, ErrorView>(
            Seq::empty(),
        ));
        assert(words.last() == words[0]);
    }
}

/// Whether fields of a type are ordered, so that a range over them means
/// something.
pub open spec fn spec_supports_range(t: FieldType) -> bool {
    match t {
        FieldType::Str
        | FieldType::Bool
        | FieldType::Facet
        | FieldType::Bytes
        | FieldType::JsonObject => false,
        _ => true,
    }
}

/// Whether fields of a type are ordered.
#[verifier::when_used_as_spec(spec_supports_range)]
pub fn supports_range(t: FieldType) -> (r: bool)
    ensures
        r == spec_supports_range(t),
{
    match t {
        FieldType::Str
        | FieldType::Bool
        | FieldType::Facet
        | FieldType::Bytes
        | FieldType::JsonObject => false,
        _ => true,
    }
}

/// A bound on a term, included or not.
pub open spec fn bound_of(term: Seq<u8>, included: bool) -> BoundView {
    if included {
        BoundView::Included(term)
    } else {
        BoundView::Excluded(term)
    }
}

/// The range query on a field between two host values.
///
/// The stated type is looked at first: a type without an order is refused
/// whatever the schema and the bounds are. Then the field must exist and be
/// declared with the stated type, and each bound must have a term under it,
/// the lower bound first.
pub open spec fn range_query_of(
    entries: Seq<FieldEntry>,
    name: Seq<char>,
    stated: FieldType,
    lower: HostView,
    upper: HostView,
    include_lower: bool,
    include_upper: bool,
) -> Result<QueryView, ErrorView> {
    if !spec_supports_range(stated) {
        Err(bare(ErrorKind::UnsupportedRangeType(stated)))
    } else {
        match term_of_type(entries, name, stated, lower) {
            Err(e) => Err(e),
            Ok(low) => match term_of_type(entries, name, stated, upper) {
                Err(e) => Err(e),
                Ok(high) => Ok(
                    QueryView::Range {
                        lower: bound_of(low, include_lower),
                        upper: bound_of(high, include_upper),
                    },
                ),
            },
        }
    }
}

/// A range over a type without an order is refused, whatever the schema,
/// the field and the bounds are; over a type with an order, on a field
/// declared with that type, it is built whenever both bounds have terms.
pub proof fn lemma_range_by_type(
    entries: Seq<FieldEntry>,
    name: Seq<char>,
    stated: FieldType,
    lower: HostView,
    upper: HostView,
    include_lower: bool,
    include_upper: bool,
)
    ensures
        (stated == FieldType::Str || stated == FieldType::Bool || stated == FieldType::Facet
            || stated == FieldType::Bytes || stated == FieldType::JsonObject) ==> range_query_of(
            entries,
            name,
            stated,
            lower,
            upper,
            include_lower,
            include_upper,
        ) == Err::<QueryView, ErrorView>(bare(ErrorKind::UnsupportedRangeType(stated))),
        (stated == FieldType::U64 || stated == FieldType::I64 || stated == FieldType::F64
            || stated == FieldType::Date || stated == FieldType::IpAddr) && term_of_type(
            entries,
            name,
            stated,
            lower,
        ) is Ok && term_of_type(entries, name, stated, upper) is Ok ==> range_query_of(
            entries,
            name,
            stated,
            lower,
            upper,
            include_lower,
            include_upper,
        ) is Ok,
        bare(ErrorKind::UnsupportedRangeType(stated)).kind.spec_status()
            == crate::error::Status::InvalidArg,
{
}

/// The message with which the engine refuses a pattern that is not a
/// regular expression, or `None` for a pattern that it accepts.
pub uninterp spec fn regex_pattern_error(pattern: Seq<char>) -> Option<Seq<char>>;

/// `tantivy::query::RegexQuery::from_pattern`: whether it fails, and the
/// message of its error, are functions of the pattern alone.
#[verifier::external_body]
fn check_pattern(pattern: &str) -> (r: Option<String>)
    ensures
        match r {
            Some(message) => regex_pattern_error(pattern@) == Some(message@),
            None => regex_pattern_error(pattern@) is None,
        },
{
    let field = tantivy::schema::Field::from_field_id(0);
    match tantivy::query::RegexQuery::from_pattern(pattern, field) {
        Ok(_) => None,
        Err(error) => Some(error.to_string()),
    }
}

/// A number of the host as a count: `None` stays `None`.
fn count_of(n: Option<u32>) -> (r: Option<usize>)
    ensures
        r == match n {
            Some(v) => Some(v as usize),
            None => None,
        },
{
    match n {
        Some(v) => Some(v as usize),
        None => None,
    }
}

/// Builds the term of each host value on a field.
pub fn make_terms(schema: &Schema, field_name: &str, field_values: &Vec<HostValue>) -> (r: Result<
    Vec<Term>,
    Error,
>)
    ensures
        match terms_of(schema.entries(), field_name@, host_views(field_values@)) {
            Ok(terms) => r matches Ok(out) && term_views(out@) == terms,
            Err(e) => r matches Err(err) && err@ == e,
        },
{
    let ghost all = host_views(field_values@);
    let mut out: Vec<Term> = Vec::new();
    let mut i: usize = 0;
    proof {
        assert(all.take(0) =~= Seq::empty());
        assert(term_views(out@) =~= Seq::empty());
    }
    while i < field_values.len()
        invariant
            i <= field_values.len(),
            all == host_views(field_values@),
            terms_of(schema.entries(), field_name@, all.take(i as int)) == Ok::<
                Seq<Seq<u8>>,
                ErrorView,
            >(term_views(out@)),
        decreases field_values.len() - i,
    {
        proof {
            assert(all.take(i + 1).drop_last() =~= all.take(i as int));
            assert(all.take(i + 1).last() == field_values@[i as int]@);
        }
        match make_term(schema, field_name, &field_values[i]) {
            Ok(t) => {
                proof {
                    assert(term_views(out@.push(t)) =~= term_views(out@).push(t@));
                }
                out.push(t);
            },
            Err(e) => {
                proof {
                    lemma_first_term_error(
                        schema.entries(),
                        field_name@,
                        all,
                        i as int,
                        e@,
                    );
                }
                return Err(e);
            },
        }
        i += 1;
    }
    proof {
        assert(all.take(i as int) =~= all);
    }
    Ok(out)
}

impl RangeBound {
    pub fn duplicate(&self) -> (r: RangeBound)
        ensures
            r@ == self@,
    {
        match self {
            RangeBound::Included(t) => RangeBound::Included(t.duplicate()),
            RangeBound::Excluded(t) => RangeBound::Excluded(t.duplicate()),
        }
    }
}

impl MoreLikeThis {
    pub fn duplicate(&self) -> (r: MoreLikeThis)
        ensures
            r@ == self@,
    {
        let stop_words = match &self.stop_words {
            Some(words) => {
                let copy = copy_texts(words);
                proof {
                    assert(text_views(copy@) =~= text_views(words@));
                }
                Some(copy)
            },
            None => None,
        };
        MoreLikeThis {
            doc_address: self.doc_address,
            min_doc_frequency: self.min_doc_frequency,
            max_doc_frequency: self.max_doc_frequency,
            min_term_frequency: self.min_term_frequency,
            max_query_terms: self.max_query_terms,
            min_word_length: self.min_word_length,
            max_word_length: self.max_word_length,
            boost_factor: self.boost_factor,
            stop_words,
        }
    }
}

/// A copy of each term.
fn copy_terms(terms: &Vec<Term>) -> (r: Vec<Term>)
    ensures
        term_views(r@) == term_views(terms@),
{
    let mut out: Vec<Term> = Vec::new();
    let mut i: usize = 0;
    while i < terms.len()
        invariant
            i <= terms.len(),
            out@.len() == i,
            forall|j: int| 0 <= j < i ==> out@[j]@ == terms@[j]@,
        decreases terms.len() - i,
    {
        out.push(terms[i].duplicate());
        i += 1;
    }
    proof {
        assert(term_views(out@) =~= term_views(terms@));
    }
    out
}

/// A copy of each term, at its offset.
fn copy_offset_terms(terms: &Vec<(usize, Term)>) -> (r: Vec<(usize, Term)>)
    ensures
        offset_term_views(r@) == offset_term_views(terms@),
{
    let mut out: Vec<(usize, Term)> = Vec::new();
    let mut i: usize = 0;
    while i < terms.len()
        invariant
            i <= terms.len(),
            out@.len() == i,
            forall|j: int| 0 <= j < i ==> out@[j].0 == terms@[j].0 && out@[j].1@ == terms@[j].1@,
        decreases terms.len() - i,
    {
        out.push((terms[i].0, terms[i].1.duplicate()));
        i += 1;
    }
    proof {
        assert(offset_term_views(out@) =~= offset_term_views(terms@));
    }
    out
}

impl Query {
    /// A deep copy: the copy owns copies of the children.
    #[verifier::loop_isolation(false)]
    pub fn duplicate(&self) -> (r: Query)
        ensures
            r@ == self@,
        decreases self,
    {
        match self {
            Query::Term { term, index_option } => Query::Term {
                term: term.duplicate(),
                index_option: *index_option,
            },
            Query::TermSet { terms } => Query::TermSet { terms: copy_terms(terms) },
            Query::All => Query::All,
            Query::Fuzzy { term, distance, transposition_cost_one, prefix } => Query::Fuzzy {
                term: term.duplicate(),
                distance: *distance,
                transposition_cost_one: *transposition_cost_one,
                prefix: *prefix,
            },
            Query::Phrase { words, slop } => Query::Phrase {
                words: copy_offset_terms(words),
                slop: *slop,
            },
            Query::Boolean { clauses } => {
                let mut out: Vec<(Occur, Query)> = Vec::new();
                let mut i: usize = 0;
                while i < clauses.len()
                    invariant
                        i <= clauses.len(),
                        out@.len() == i,
                        forall|j: int|
                            0 <= j < i ==> out@[j].0 == clauses@[j].0 && out@[j].1@
                                == clauses@[j].1@,
                    decreases clauses.len() - i,
                {
                    let c = clauses[i].1.duplicate();
                    out.push((clauses[i].0, c));
                    i += 1;
                }
                proof {
                    lemma_boolean_view(out);
                    lemma_boolean_view(*clauses);
                    assert(clause_views(out@) =~= clause_views(clauses@));
                }
                Query::Boolean { clauses: out }
            },
            Query::DisjunctionMax { disjuncts, tie_breaker } => {
                let mut out: Vec<Query> = Vec::new();
                let mut i: usize = 0;
                while i < disjuncts.len()
                    invariant
                        i <= disjuncts.len(),
                        out@.len() == i,
                        forall|j: int| 0 <= j < i ==> out@[j]@ == disjuncts@[j]@,
                    decreases disjuncts.len() - i,
                {
                    let c = disjuncts[i].duplicate();
                    out.push(c);
                    i += 1;
                }
                proof {
                    lemma_disjunction_view(out, *tie_breaker);
                    lemma_disjunction_view(*disjuncts, *tie_breaker);
                    assert(query_views(out@) =~= query_views(disjuncts@));
                }
                Query::DisjunctionMax { disjuncts: out, tie_breaker: *tie_breaker }
            },
            Query::Boost { query, boost } => Query::Boost {
                query: Box::new(query.duplicate()),
                boost: *boost,
            },
            Query::Regex { field, pattern } => Query::Regex {
                field: *field,
                pattern: pattern.clone(),
            },
            Query::MoreLikeThis { params } => Query::MoreLikeThis { params: params.duplicate() },
            Query::ConstScore { query, score } => Query::ConstScore {
                query: Box::new(query.duplicate()),
                score: *score,
            },
            Query::Range { lower, upper } => Query::Range {
                lower: lower.duplicate(),
                upper: upper.duplicate(),
            },
        }
    }

    /// A query for the documents that hold a term: the term of the given
    /// host value on the given field.
    pub fn term_query(
        schema: &Schema,
        field_name: &str,
        field_value: &HostValue,
        index_option: Option<&str>,
    ) -> (r: Result<Query, Error>)
        ensures
            query_outcome(r) == term_query_of(
                schema.entries(),
                field_name@,
                field_value@,
                match index_option {
                    Some(n) => Some(n@),
                    None => None,
                },
            ),
    {
        let term = match make_term(schema, field_name, field_value) {
            Ok(term) => term,
            Err(e) => {
                return Err(e);
            },
        };
        let option = match index_option {
            Some(name) => parse_index_option(name),
            None => Some(IndexRecordOption::WithFreqsAndPositions),
        };
        match option {
            Some(index_option) => Ok(Query::Term { term, index_option }),
            None => Err(Error::bare(ErrorKind::InvalidIndexOption)),
        }
    }

    /// A query for the documents that hold one of the terms of the given
    /// host values on the given field.
    pub fn term_set_query(schema: &Schema, field_name: &str, field_values: &Vec<HostValue>) -> (r:
        Result<Query, Error>)
        ensures
            query_outcome(r) == match terms_of(
                schema.entries(),
                field_name@,
                host_views(field_values@),
            ) {
                Ok(terms) => Ok::<QueryView, ErrorView>(QueryView::TermSet { terms }),
                Err(e) => Err(e),
            },
    {
        match make_terms(schema, field_name, field_values) {
            Ok(terms) => Ok(Query::TermSet { terms }),
            Err(e) => Err(e),
        }
    }

    /// The query that every document matches.
    pub fn all_query() -> (r: Result<Query, Error>)
        ensures
            query_outcome(r) == Ok::<QueryView, ErrorView>(QueryView::All),
    {
        Ok(Query::All)
    }

    /// A query for the documents that hold a term near the given text: at
    /// most `distance` edits away (1 where none is given), a transposition
    /// counting as one edit unless `transposition_cost_one` is false, and
    /// against prefixes of terms if `prefix` is true. The term is the text
    /// itself, whatever the type of the field.
    pub fn fuzzy_term_query(
        schema: &Schema,
        field_name: &str,
        text: &str,
        distance: Option<u8>,
        transposition_cost_one: Option<bool>,
        prefix: Option<bool>,
    ) -> (r: Result<Query, Error>)
        ensures
            query_outcome(r) == match position_of(schema.entries(), field_name@) {
                Some(i) => Ok::<QueryView, ErrorView>(
                    QueryView::Fuzzy {
                        term: term_bytes(i as u32, FieldType::Str, encode_utf8(text@)),
                        distance: match distance {
                            Some(d) => d,
                            None => 1,
                        },
                        transposition_cost_one: match transposition_cost_one {
                            Some(b) => b,
                            None => true,
                        },
                        prefix: match prefix {
                            Some(b) => b,
                            None => false,
                        },
                    },
                ),
                None => Err(about(ErrorKind::FieldDoesNotExist, field_name@)),
            },
    {
        let field = match schema.get_field(field_name) {
            Ok(field) => field,
            Err(e) => {
                return Err(e);
            },
        };
        Ok(
            Query::Fuzzy {
                term: Term::from_field_text(field, text),
                distance: match distance {
                    Some(d) => d,
                    None => 1,
                },
                transposition_cost_one: match transposition_cost_one {
                    Some(b) => b,
                    None => true,
                },
                prefix: match prefix {
                    Some(b) => b,
                    None => false,
                },
            },
        )
    }

    /// A query for the documents that hold the words as a phrase; `slop` is
    /// the number of gaps allowed between them (0 where none is given).
    pub fn phrase_query(
        schema: &Schema,
        field_name: &str,
        words: &Vec<HostValue>,
        slop: Option<u32>,
    ) -> (r: Result<Query, Error>)
        ensures
            query_outcome(r) == phrase_query_of(
                schema.entries(),
                field_name@,
                host_views(words@),
                match slop {
                    Some(s) => s,
                    None => 0,
                },
            ),
    {
        let slop = match slop {
            Some(s) => s,
            None => 0,
        };
        let terms = match make_terms(schema, field_name, words) {
            Ok(terms) => terms,
            Err(e) => {
                return Err(e);
            },
        };
        if terms.len() == 0 {
            return Err(Error::bare(ErrorKind::EmptyPhrase));
        }
        if terms.len() == 1 {
            return Err(Error::bare(ErrorKind::PhraseTooShort));
        }
        let ghost all = term_views(terms@);
        let n = terms.len();
        let mut out: Vec<(usize, Term)> = Vec::new();
        let mut i: usize = 0;
        while i < n
            invariant
                i <= n,
                n == terms.len(),
                out@.len() == i,
                all.len() == n,
                all == term_views(terms@),
                forall|j: int|
                    0 <= j < i ==> (#[trigger] out@[j]).0 == j && out@[j].1@ == all[j],
            decreases n - i,
        {
            let t = terms[i].duplicate();
            assert(all[i as int] == terms@[i as int]@);
            out.push((i, t));
            i += 1;
        }
        proof {
            assert(offset_term_views(out@) =~= with_offsets(all));
        }
        Ok(Query::Phrase { words: out, slop })
    }

    /// A query that combines clauses: each is a query that must, may, or
    /// must not match. The node owns copies of the queries.
    pub fn boolean_query(subqueries: &Vec<(Occur, Query)>) -> (r: Result<Query, Error>)
        ensures
            query_outcome(r) == Ok::<QueryView, ErrorView>(
                QueryView::Boolean { clauses: clause_views(subqueries@) },
            ),
    {
        let mut out: Vec<(Occur, Query)> = Vec::new();
        let mut i: usize = 0;
        while i < subqueries.len()
            invariant
                i <= subqueries.len(),
                out@.len() == i,
                forall|j: int|
                    0 <= j < i ==> out@[j].0 == subqueries@[j].0 && out@[j].1@
                        == subqueries@[j].1@,
            decreases subqueries.len() - i,
        {
            let c = subqueries[i].1.duplicate();
            out.push((subqueries[i].0, c));
            i += 1;
        }
        proof {
            lemma_boolean_view(out);
            assert(clause_views(out@) =~= clause_views(subqueries@));
        }
        Ok(Query::Boolean { clauses: out })
    }

    /// A query that scores a document by the best of the given queries, and
    /// by `tie_breaker` times the others. The node owns copies of the
    /// queries.
    pub fn disjunction_max_query(subqueries: &Vec<Query>, tie_breaker: Option<u64>) -> (r: Result<
        Query,
        Error,
    >)
        ensures
            query_outcome(r) == Ok::<QueryView, ErrorView>(
                QueryView::DisjunctionMax { disjuncts: query_views(subqueries@), tie_breaker },
            ),
    {
        let mut out: Vec<Query> = Vec::new();
        let mut i: usize = 0;
        while i < subqueries.len()
            invariant
                i <= subqueries.len(),
                out@.len() == i,
                forall|j: int| 0 <= j < i ==> out@[j]@ == subqueries@[j]@,
            decreases subqueries.len() - i,
        {
            let c = subqueries[i].duplicate();
            out.push(c);
            i += 1;
        }
        proof {
            lemma_disjunction_view(out, tie_breaker);
            assert(query_views(out@) =~= query_views(subqueries@));
        }
        Ok(Query::DisjunctionMax { disjuncts: out, tie_breaker })
    }

    /// A query that matches what the given query matches, with its score
    /// multiplied by `boost`.
    pub fn boost_query(query: &Query, boost: u64) -> (r: Result<Query, Error>)
        ensures
            query_outcome(r) == Ok::<QueryView, ErrorView>(
                QueryView::Boost { query: Box::new(query@), boost },
            ),
    {
        Ok(Query::Boost { query: Box::new(query.duplicate()), boost })
    }

    /// A query for the documents that hold a term that the pattern matches.
    pub fn regex_query(schema: &Schema, field_name: &str, regex_pattern: &str) -> (r: Result<
        Query,
        Error,
    >)
        ensures
            query_outcome(r) == match position_of(schema.entries(), field_name@) {
                None => Err::<QueryView, ErrorView>(
                    about(ErrorKind::FieldDoesNotExist, field_name@),
                ),
                Some(i) => match regex_pattern_error(regex_pattern@) {
                    Some(message) => Err(about(ErrorKind::InvalidRegex, message)),
                    None => Ok(QueryView::Regex { field: i as u32, pattern: regex_pattern@ }),
                },
            },
    {
        let field = match schema.get_field(field_name) {
            Ok(field) => field,
            Err(e) => {
                return Err(e);
            },
        };
        match check_pattern(regex_pattern) {
            Some(message) => Err(Error::new(ErrorKind::InvalidRegex, message.as_str())),
            None => Ok(
                Query::Regex { field, pattern: regex_pattern.to_owned() },
            ),
        }
    }

    /// A query for the documents that are like the one at the given
    /// address. Document frequencies are host numbers, taken as unsigned
    /// integers; every parameter left out is left to the engine.
    pub fn more_like_this_query(
        doc_address: DocAddress,
        min_doc_frequency: Option<u64>,
        max_doc_frequency: Option<u64>,
        min_term_frequency: Option<u32>,
        max_query_terms: Option<u32>,
        min_word_length: Option<u32>,
        max_word_length: Option<u32>,
        boost_factor: Option<u64>,
        stop_words: Option<Vec<String>>,
    ) -> (r: Result<Query, Error>)
        ensures
            query_outcome(r) == Ok::<QueryView, ErrorView>(
                QueryView::MoreLikeThis {
                    params: MoreLikeThisView {
                        doc_address,
                        min_doc_frequency: match min_doc_frequency {
                            Some(bits) => Some(to_u64_spec(bits)),
                            None => None,
                        },
                        max_doc_frequency: match max_doc_frequency {
                            Some(bits) => Some(to_u64_spec(bits)),
                            None => None,
                        },
                        min_term_frequency: match min_term_frequency {
                            Some(v) => Some(v as usize),
                            None => None,
                        },
                        max_query_terms: match max_query_terms {
                            Some(v) => Some(v as usize),
                            None => None,
                        },
                        min_word_length: match min_word_length {
                            Some(v) => Some(v as usize),
                            None => None,
                        },
                        max_word_length: match max_word_length {
                            Some(v) => Some(v as usize),
                            None => None,
                        },
                        boost_factor,
                        stop_words: match stop_words {
                            Some(words) => Some(text_views(words@)),
                            None => None,
                        },
                    },
                },
            ),
    {
        Ok(
            Query::MoreLikeThis {
                params: MoreLikeThis {
                    doc_address,
                    min_doc_frequency: match min_doc_frequency {
                        Some(bits) => Some(to_u64(bits)),
                        None => None,
                    },
                    max_doc_frequency: match max_doc_frequency {
                        Some(bits) => Some(to_u64(bits)),
                        None => None,
                    },
                    min_term_frequency: count_of(min_term_frequency),
                    max_query_terms: count_of(max_query_terms),
                    min_word_length: count_of(min_word_length),
                    max_word_length: count_of(max_word_length),
                    boost_factor,
                    stop_words,
                },
            },
        )
    }

    /// A query that matches what the given query matches, each with the
    /// given score.
    pub fn const_score_query(query: &Query, score: u64) -> (r: Result<Query, Error>)
        ensures
            query_outcome(r) == Ok::<QueryView, ErrorView>(
                QueryView::ConstScore { query: Box::new(query@), score },
            ),
    {
        Ok(Query::ConstScore { query: Box::new(query.duplicate()), score })
    }

    /// A query for the documents whose value on a field lies between two
    /// bounds; each bound is included unless its flag says otherwise.
    pub fn range_query(
        schema: &Schema,
        field_name: &str,
        field_type: FieldType,
        lower_bound: &HostValue,
        upper_bound: &HostValue,
        include_lower: Option<bool>,
        include_upper: Option<bool>,
    ) -> (r: Result<Query, Error>)
        ensures
            query_outcome(r) == range_query_of(
                schema.entries(),
                field_name@,
                field_type,
                lower_bound@,
                upper_bound@,
                match include_lower {
                    Some(b) => b,
                    None => true,
                },
                match include_upper {
                    Some(b) => b,
                    None => true,
                },
            ),
    {
        let include_lower = match include_lower {
            Some(b) => b,
            None => true,
        };
        let include_upper = match include_upper {
            Some(b) => b,
            None => true,
        };
        if !supports_range(field_type) {
            return Err(Error::bare(ErrorKind::UnsupportedRangeType(field_type)));
        }
        let low = match make_term_for_type(schema, field_name, field_type, lower_bound) {
            Ok(term) => term,
            Err(e) => {
                return Err(e);
            },
        };
        let high = match make_term_for_type(schema, field_name, field_type, upper_bound) {
            Ok(term) => term,
            Err(e) => {
                return Err(e);
            },
        };
        let lower = if include_lower {
            RangeBound::Included(low)
        } else {
            RangeBound::Excluded(low)
        };
        let upper = if include_upper {
            RangeBound::Included(high)
        } else {
            RangeBound::Excluded(high)
        };
        Ok(Query::Range { lower, upper })
    }
}

impl Clone for Query {
    fn clone(&self) -> (r: Query)
        ensures
            r@ == self@,
    {
        self.duplicate()
    }
}

} // verus!
