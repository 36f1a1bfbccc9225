//! A typed query surface for a cloud analytics warehouse: records are
//! described once by a schema, and select/insert/update/delete statements
//! are composed, emitted as parameterized SQL, and decoded back into records.
use vstd::prelude::*;

pub mod client;
pub mod conversion;
pub mod datetime;
pub mod json;
pub mod query_builder;
pub mod record;
pub mod schema;
pub mod table;
pub mod textfmt;

verus! {

/// Direction of an `ORDER BY` clause.
#[derive(Debug, Clone, Copy)]
pub enum OrderDirection {
    Ascending,
    Descending,
}

impl OrderDirection {
    /// The SQL keyword for this direction.
    pub open spec fn spec_query_str(&self) -> Seq<char> {
        match self {
            OrderDirection::Ascending => "ASC"@,
            OrderDirection::Descending => "DESC"@,
        }
    }

    pub fn to_query_str(&self) -> (r: String)
        ensures
            r@ == self.spec_query_str(),
    {
        match self {
            OrderDirection::Ascending => String::from_str("ASC"),
            OrderDirection::Descending => String::from_str("DESC"),
        }
    }
}

} // verus!
