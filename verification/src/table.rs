//! The table facade: the outcome rules of the convenience operations that
//! run statements — fetching by primary key, saving, and upserting. The
//! transport round trips themselves happen outside the verified core; the
//! decisions here are what they feed and obey.
use vstd::prelude::*;

use crate::client::{spec_table_identifier, table_identifier_from_client, BigqueryClient};
use crate::query_builder::{BigqueryError, QueryResultType};
use crate::record::Record;
use crate::schema::TableSchema;
use crate::textfmt::spec_dec;

verus! {

impl TableSchema {
    /// The emitted table identifier under the client's coordinates:
    /// `` `project.dataset.table` ``.
    pub fn get_table_identifier_from_client(&self, client: &BigqueryClient) -> (r: String)
        ensures
            r@ == spec_table_identifier(client@, self@.table_name),
    {
        table_identifier_from_client(client, self.table_name.as_str())
    }
}

/// The outcome of a fetch by primary key: the row when exactly one came
/// back, an error naming the key otherwise.
pub fn single_row_result(rows: Vec<Record>, pk_db_name: &str, pk_text: &str) -> (r: Result<
    Record,
    BigqueryError,
>)
    ensures
        match r {
            Ok(rec) => rows@.len() == 1 && rec == rows@[0],
            Err(e) => (rows@.len() == 0 && e.message@ == "No entry found for "@ + pk_db_name@
                + " = "@ + pk_text@) || (rows@.len() > 1 && e.message@
                == "More than one entry found for "@ + pk_db_name@ + " = "@ + pk_text@),
        },
{
    if rows.len() == 0 {
        let mut m = String::from_str("No entry found for ");
        m.append(pk_db_name);
        m.append(" = ");
        m.append(pk_text);
        Err(BigqueryError { message: m })
    } else if rows.len() > 1 {
        let mut m = String::from_str("More than one entry found for ");
        m.append(pk_db_name);
        m.append(" = ");
        m.append(pk_text);
        Err(BigqueryError { message: m })
    } else {
        let mut rows = rows;
        Ok(rows.remove(0))
    }
}

/// The outcome of a save, which dispatches an UPDATE and asserts zero
/// result rows: a bare outcome passes through, rows are an error unless
/// there are none.
pub fn save_outcome(result: QueryResultType<Record>) -> (r: Result<(), BigqueryError>)
    ensures
        match result {
            QueryResultType::WithoutRowData(res) => r == res,
            QueryResultType::WithRowData(rows) => if rows@.len() == 0 {
                r is Ok
            } else {
                r matches Err(e) && e.message@ == "save should return empty data, but returned "@
                    + spec_dec(rows@.len() as nat) + " rows."@
            },
        },
{
    match result {
        QueryResultType::WithoutRowData(res) => res,
        QueryResultType::WithRowData(rows) => {
            if rows.len() == 0 {
                Ok(())
            } else {
                let mut m = String::from_str("save should return empty data, but returned ");
                let num = crate::textfmt::usize_to_string(rows.len());
                m.append(num.as_str());
                m.append(" rows.");
                Err(BigqueryError { message: m })
            }
        },
    }
}

/// What an upsert dispatches next.
#[derive(Debug, Clone, Copy, PartialEq, Eq, Structural)]
pub enum UpsertAction {
    Save,
    Insert,
}

/// The upsert rule: a record whose reload succeeded exists on the table and
/// is saved; one whose reload failed is inserted.
pub fn upsert_action(reload_succeeded: bool) -> (r: UpsertAction)
    ensures
        r == (if reload_succeeded {
            UpsertAction::Save
        } else {
            UpsertAction::Insert
        }),
{
    if reload_succeeded {
        UpsertAction::Save
    } else {
        UpsertAction::Insert
    }
}

} // verus!
