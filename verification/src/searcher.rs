//! Search requests and their results.

use crate::error::{about, bare, Error, ErrorKind, ErrorView};
use crate::schema::{lemma_position_of, position_of, FieldEntry, FieldType, Schema};
use vstd::prelude::*;

verus! {

/// The direction in which hits are ordered by a field.
#[derive(Clone, Copy, Debug, PartialEq, Eq, Structural)]
pub enum Order {
    /// Smaller values first.
    Asc,
    /// Larger values first.
    Desc,
}

/// What identifies a document in one snapshot of the index: the ordinal of
/// its segment, and its identifier within the segment.
#[derive(Clone, Copy, Debug, PartialEq, Eq, PartialOrd, Ord, Hash, Structural)]
pub struct DocAddress {
    pub segment_ord: u32,
    pub doc: u32,
}

/// The number of hits asked for where the caller names none.
pub const DEFAULT_LIMIT: u32 = 10;

/// How the hits of a search are ranked.
#[derive(Clone, Debug, PartialEq, Eq)]
pub enum Ranking {
    /// By relevance, the best first.
    Score,
    /// By the value of an unsigned field that is stored by column.
    Field { name: String, order: Order },
}

/// What a `Ranking` stands for.
pub enum RankingView {
    Score,
    Field { name: Seq<char>, order: Order },
}

impl View for Ranking {
    type V = RankingView;

    open spec fn view(&self) -> RankingView {
        match self {
            Ranking::Score => RankingView::Score,
            Ranking::Field { name, order } => RankingView::Field { name: name@, order: *order },
        }
    }
}

/// One pass over the matches of a query: the top hits after an offset, and
/// the number of matches if it is asked for.
#[derive(Clone, Debug, PartialEq, Eq)]
pub struct SearchPlan {
    pub limit: usize,
    pub offset: usize,
    pub count: bool,
    pub ranking: Ranking,
}

/// What a `SearchPlan` stands for.
pub struct SearchPlanView {
    pub limit: usize,
    pub offset: usize,
    pub count: bool,
    pub ranking: RankingView,
}

impl View for SearchPlan {
    type V = SearchPlanView;

    open spec fn view(&self) -> SearchPlanView {
        SearchPlanView {
            limit: self.limit,
            offset: self.offset,
            count: self.count,
            ranking: self.ranking@,
        }
    }
}

/// Whether hits can be ordered by a field: it is unsigned and stored by
/// column.
pub open spec fn orders_hits(entry: FieldEntry) -> bool {
    entry.field_type == FieldType::U64 && entry.spec_is_fast()
}

/// The ranking that a search is asked with: by the named field, in the
/// given direction or else descending; by score if no field is named.
pub open spec fn ranking_of(
    entries: Seq<FieldEntry>,
    order_by_field: Option<Seq<char>>,
    order: Option<Order>,
) -> Result<RankingView, ErrorView> {
    match order_by_field {
        None => Ok(RankingView::Score),
        Some(name) => match position_of(entries, name) {
            None => Err(about(ErrorKind::FieldDoesNotExist, name)),
            Some(i) => if orders_hits(entries[i]) {
                Ok(
                    RankingView::Field {
                        name,
                        order: match order {
                            Some(o) => o,
                            None => Order::Desc,
                        },
                    },
                )
            } else {
                Err(about(ErrorKind::NotFastUnsigned, name))
            },
        },
    }
}

/// The plan of a search: at most `limit` hits (10 where none is given)
/// after `offset` hits (0 where none is given), with the number of matches
/// unless `count` is false.
pub open spec fn plan_of(
    entries: Seq<FieldEntry>,
    limit: Option<u32>,
    count: Option<bool>,
    order_by_field: Option<Seq<char>>,
    offset: Option<u32>,
    order: Option<Order>,
) -> Result<SearchPlanView, ErrorView> {
    let limit = match limit {
        Some(n) => n,
        None => DEFAULT_LIMIT,
    };
    if limit == 0 {
        Err(bare(ErrorKind::InvalidLimit))
    } else {
        match ranking_of(entries, order_by_field, order) {
            Err(e) => Err(e),
            Ok(ranking) => Ok(
                SearchPlanView {
                    limit: limit as usize,
                    offset: match offset {
                        Some(n) => n as usize,
                        None => 0,
                    },
                    count: match count {
                        Some(b) => b,
                        None => true,
                    },
                    ranking,
                },
            ),
        }
    }
}

/// What the outcome of planning stands for.
pub open spec fn plan_outcome(r: Result<SearchPlan, Error>) -> Result<SearchPlanView, ErrorView> {
    match r {
        Ok(p) => Ok(p@),
        Err(e) => Err(e@),
    }
}

/// Plans a search.
pub fn plan_search(
    schema: &Schema,
    limit: Option<u32>,
    count: Option<bool>,
    order_by_field: Option<&str>,
    offset: Option<u32>,
    order: Option<Order>,
) -> (r: Result<SearchPlan, Error>)
    ensures
        plan_outcome(r) == plan_of(
            schema.entries(),
            limit,
            count,
            match order_by_field {
                Some(n) => Some(n@),
                None => None,
            },
            offset,
            order,
        ),
{
    let limit = match limit {
        Some(n) => n,
        None => DEFAULT_LIMIT,
    };
    if limit == 0 {
        return Err(Error::bare(ErrorKind::InvalidLimit));
    }
    let ranking = match order_by_field {
        None => Ranking::Score,
        Some(name) => {
            let field = match schema.get_field(name) {
                Ok(field) => field,
                Err(e) => {
                    return Err(e);
                },
            };
            proof {
                lemma_position_of(schema.entries(), name@);
            }
            let fit = match schema.get_field_entry(field) {
                Some(entry) => entry.field_type == FieldType::U64 && entry.is_fast(),
                None => false,
            };
            if !fit {
                return Err(Error::new(ErrorKind::NotFastUnsigned, name));
            }
            Ranking::Field {
                name: name.to_owned(),
                order: match order {
                    Some(o) => o,
                    None => Order::Desc,
                },
            }
        },
    };
    Ok(
        SearchPlan {
            limit: limit as usize,
            offset: match offset {
                Some(n) => n as usize,
                None => 0,
            },
            count: match count {
                Some(b) => b,
                None => true,
            },
            ranking,
        },
    )
}

/// What the engine found: the top hits, each with its score (a 32-bit
/// float, held by its bit pattern) or with the value of the field that
/// orders the hits.
#[derive(Clone, Debug, PartialEq, Eq)]
pub enum TopDocs {
    Scored(Vec<(u32, DocAddress)>),
    Ordered(Vec<(u64, DocAddress)>),
}

/// A hit. Exactly one of `score` and `order` is there: the score (a 32-bit
/// float, held by its bit pattern) of a hit ranked by relevance, the value
/// of the ordering field of a hit ordered by a field.
#[derive(Clone, Copy, Debug, PartialEq, Eq, Structural)]
pub struct SearchHit {
    pub score: Option<u32>,
    pub order: Option<u64>,
    pub doc_address: DocAddress,
}

/// The outcome of a search.
#[derive(Clone, Debug, PartialEq, Eq)]
pub struct SearchResult {
    pub hits: Vec<SearchHit>,
    /// How many documents matched, if that was asked for.
    pub count: Option<u32>,
}

/// What a `SearchResult` stands for.
pub struct SearchResultView {
    pub hits: Seq<SearchHit>,
    pub count: Option<u32>,
}

impl View for SearchResult {
    type V = SearchResultView;

    open spec fn view(&self) -> SearchResultView {
        SearchResultView { hits: self.hits@, count: self.count }
    }
}

/// The hit of a document found with a score.
pub open spec fn scored_hit(found: (u32, DocAddress)) -> SearchHit {
    SearchHit { score: Some(found.0), order: None, doc_address: found.1 }
}

/// The hit of a document found by the value of a field.
pub open spec fn ordered_hit(found: (u64, DocAddress)) -> SearchHit {
    SearchHit { score: None, order: Some(found.0), doc_address: found.1 }
}

/// The hits of what the engine found, in the engine's order.
pub open spec fn hits_of(top: TopDocs) -> Seq<SearchHit> {
    match top {
        TopDocs::Scored(found) => Seq::new(found@.len(), |i: int| scored_hit(found@[i])),
        TopDocs::Ordered(found) => Seq::new(found@.len(), |i: int| ordered_hit(found@[i])),
    }
}

/// The number of matches as the host takes it: in 32 bits.
pub open spec fn count_of(total: usize) -> u32 {
    (total as int % 0x1_0000_0000) as u32
}

/// The result of a search: the hits of what the engine found, and the
/// number of matches if the plan asks for it.
pub open spec fn result_of(count: bool, top: TopDocs, total: usize) -> SearchResultView {
    SearchResultView {
        hits: hits_of(top),
        count: if count {
            Some(count_of(total))
        } else {
            None
        },
    }
}

/// Whether what the engine found is of the kind that a ranking asks for:
/// hits with scores for a ranking by score, hits with field values for a
/// ranking by a field.
pub open spec fn fits(ranking: RankingView, top: TopDocs) -> bool {
    (ranking is Score) == (top is Scored)
}

/// The outcome of a search under a plan: the result, if what the engine
/// found is of the kind that the plan ranks by.
pub open spec fn assembled(plan: SearchPlanView, top: TopDocs, total: usize) -> Result<
    SearchResultView,
    ErrorView,
> {
    if fits(plan.ranking, top) {
        Ok(result_of(plan.count, top, total))
    } else {
        Err(bare(ErrorKind::OutcomeMismatch))
    }
}

/// Under a plan ranked by score every hit has a score and no order; under
/// a plan ordered by a field every hit has an order and no score.
pub proof fn lemma_hits_follow_the_ranking(plan: SearchPlanView, top: TopDocs, total: usize)
    ensures
        assembled(plan, top, total) matches Ok(result) ==> forall|i: int|
            0 <= i < result.hits.len() ==> {
                &&& (#[trigger] result.hits[i]).score.is_some() == (plan.ranking is Score)
                &&& result.hits[i].order.is_some() == (plan.ranking is Field)
            },
{
}

/// Assembles the result of a search from what the engine found in one
/// pass: the top hits, and the number of matches.
pub fn assemble(plan: &SearchPlan, top: &TopDocs, total: usize) -> (r: Result<SearchResult, Error>)
    ensures
        match assembled(plan@, *top, total) {
            Ok(result) => r matches Ok(out) && out@ == result,
            Err(e) => r matches Err(err) && err@ == e,
        },
        r matches Ok(out) ==> forall|i: int|
            0 <= i < out.hits@.len() ==> {
                &&& (#[trigger] out.hits@[i]).score.is_some() == (plan.ranking@ is Score)
                &&& out.hits@[i].order.is_some() == (plan.ranking@ is Field)
            },
{
    let by_score = match &plan.ranking {
        Ranking::Score => true,
        Ranking::Field { .. } => false,
    };
    let scored = match top {
        TopDocs::Scored(_) => true,
        TopDocs::Ordered(_) => false,
    };
    if by_score != scored {
        return Err(Error::bare(ErrorKind::OutcomeMismatch));
    }
    let mut hits: Vec<SearchHit> = Vec::new();
    match top {
        TopDocs::Scored(found) => {
            let mut i: usize = 0;
            while i < found.len()
                invariant
                    i <= found.len(),
                    hits@.len() == i,
                    forall|j: int| 0 <= j < i ==> hits@[j] == scored_hit(found@[j]),
                decreases found.len() - i,
            {
                hits.push(
                    SearchHit { score: Some(found[i].0), order: None, doc_address: found[i].1 },
                );
                i += 1;
            }
            assert(hits@ =~= hits_of(*top));
        },
        TopDocs::Ordered(found) => {
            let mut i: usize = 0;
            while i < found.len()
                invariant
                    i <= found.len(),
                    hits@.len() == i,
                    forall|j: int| 0 <= j < i ==> hits@[j] == ordered_hit(found@[j]),
                decreases found.len() - i,
            {
                hits.push(
                    SearchHit { score: None, order: Some(found[i].0), doc_address: found[i].1 },
                );
                i += 1;
            }
            assert(hits@ =~= hits_of(*top));
        },
    }
    let count = if plan.count {
        Some((total as u64 % 0x1_0000_0000) as u32)
    } else {
        None
    };
    Ok(SearchResult { hits, count })
}

/// Whether the number of matches is asked for changes neither what the
/// engine is asked for (the limit, the offset, the ranking) nor the hits of
/// what it finds; asked for, the number is in the result, and is the number
/// of matches whatever the limit is.
pub proof fn lemma_count_is_independent(
    entries: Seq<FieldEntry>,
    limit: Option<u32>,
    order_by_field: Option<Seq<char>>,
    offset: Option<u32>,
    order: Option<Order>,
    top: TopDocs,
    total: usize,
)
    ensures
        match (
            plan_of(entries, limit, Some(true), order_by_field, offset, order),
            plan_of(entries, limit, Some(false), order_by_field, offset, order),
        ) {
            (Ok(with), Ok(without)) => {
                &&& with.limit == without.limit
                &&& with.offset == without.offset
                &&& with.ranking == without.ranking
                &&& with.count
                &&& !without.count
            },
            (Err(a), Err(b)) => a == b,
            _ => false,
        },
        result_of(true, top, total).hits == result_of(false, top, total).hits,
        result_of(true, top, total).count == Some(count_of(total)),
        result_of(false, top, total).count is None,
        total <= u32::MAX ==> count_of(total) == total,
{
}

/// The message with which the engine refuses a text that is not an
/// aggregation request, or `None` for a text that is one.
pub uninterp spec fn aggregation_request_error(request: Seq<char>) -> Option<Seq<char>>;

/// `serde_json::from_str` into `tantivy::aggregation::agg_req::Aggregations`:
/// whether it fails, and the message of its error, are functions of the
/// text alone.
#[verifier::external_body]
fn read_aggregation_request(request: &str) -> (r: Option<String>)
    ensures
        match r {
            Some(message) => aggregation_request_error(request@) == Some(message@),
            None => aggregation_request_error(request@) is None,
        },
{
    match serde_json::from_str::<tantivy::aggregation::agg_req::Aggregations>(request) {
        Ok(_) => None,
        Err(error) => Some(error.to_string()),
    }
}

/// Checks that a text is an aggregation request, before the engine is
/// asked to run it.
pub fn check_aggregation(request: &str) -> (r: Result<(), Error>)
    ensures
        match aggregation_request_error(request@) {
            None => r is Ok,
            Some(message) => r matches Err(e) && e@ == about(
                ErrorKind::InvalidAggregation,
                message,
            ),
        },
{
    match read_aggregation_request(request) {
        None => Ok(()),
        Some(message) => Err(Error::new(ErrorKind::InvalidAggregation, message.as_str())),
    }
}

} // verus!
