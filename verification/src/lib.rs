//! Marshalling layer between an untyped host data model and the typed
//! document, term and query model of a schema-driven search engine.
//!
//! Host values are coerced into typed [`value::Value`]s, either by
//! inference or under a declared [`schema::FieldType`]; typed values are
//! encoded into search terms and assembled into queries; search requests are
//! planned and their raw outcome is assembled into hits.

pub mod coerce;
pub mod date;
pub mod document;
pub mod error;
pub mod facet;
pub mod host;
pub mod index;
pub mod ip;
pub mod json;
pub mod number;
pub mod parser_error;
pub mod query;
pub mod render;
pub mod schema;
pub mod schemabuilder;
pub mod searcher;
pub mod snippet;
pub mod term;
pub mod text;
pub mod tokenizer;
pub mod value;
pub mod wire;

pub use document::Document;
pub use error::{Error, ErrorKind, Status};
pub use facet::Facet;
pub use host::HostValue;
pub use index::IndexWriter;
pub use query::{Occur, Query};
pub use schema::{FieldType, Schema};
pub use schemabuilder::SchemaBuilder;
pub use searcher::{DocAddress, Order, SearchHit, SearchResult};
pub use term::{make_term, make_term_for_type, Term};
pub use value::Value;

use vstd::prelude::*;

verus! {

/// The version of the library.
pub const VERSION: &'static str = "0.1.0";

/// The version of the library.
pub fn get_version() -> (r: String)
    ensures
        r@ == VERSION@,
{
    VERSION.to_owned()
}

/// The identifier of the field of the given name in a schema.
pub fn get_field(schema: &Schema, field_name: &str) -> (r: Result<u32, Error>)
    ensures
        match r {
            Ok(id) => schema::position_of(schema.entries(), field_name@) == Some(id as int),
            Err(e) => schema::position_of(schema.entries(), field_name@) is None && e@
                == error::about(ErrorKind::FieldDoesNotExist, field_name@),
        },
{
    schema.get_field(field_name)
}

} // verus!
