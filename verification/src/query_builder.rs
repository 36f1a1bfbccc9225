//! The typestate query builder: a statement is composed by transitions that
//! each move one compile-time axis — statement kind, client presence, data
//! payload, built flag — and `build_query` emits the SQL text and parameter
//! list that the contracts here pin down exactly.
use core::marker::PhantomData;

use vstd::prelude::*;

use crate::client::{spec_table_identifier, table_identifier_from_client, BigqueryClient};
use crate::conversion::{spec_value_to_string, BigDataValueType, ConvertBigQueryParams};
use crate::json::{JsonVal, JsonValue};
use crate::record::{
    get_parameter, make_field_param, param_name_of, spec_param_for_field, spec_param_name_of,
    QueryParam, Record, SpecParam,
};
use crate::schema::{SpecField, SpecSchema, TableSchema};
use crate::textfmt::{
    seq_views, spec_dec, spec_join, str_eq, usize_to_string,
};
use crate::OrderDirection;

verus! {

/// Error raised by the query surface: a failed lookup, a refused build, or
/// a result of the wrong shape.
#[derive(Debug)]
pub struct BigqueryError {
    pub message: String,
}

impl BigqueryError {
    pub fn new(message: &str) -> (r: Self)
        ensures
            r.message@ == message@,
    {
        BigqueryError { message: String::from_str(message) }
    }
}

impl Clone for BigqueryError {
    fn clone(&self) -> (r: Self)
        ensures
            r.message@ == self.message@,
    {
        BigqueryError { message: self.message.clone() }
    }
}

// ---------------------------------------------------------------------------
// Results of a run
// ---------------------------------------------------------------------------

/// The outcome of running a statement: decoded rows for a SELECT whose
/// response carried a row matrix, else the bare success or failure.
#[derive(Debug)]
pub enum QueryResultType<Table> {
    WithRowData(Vec<Table>),
    WithoutRowData(Result<(), BigqueryError>),
}

impl<T> QueryResultType<T> {
    /// The rows, or an error built from `message` when there are none.
    pub fn map_err_with_data(self, message: &str) -> (r: Result<Vec<T>, BigqueryError>)
        ensures
            match self {
                QueryResultType::WithRowData(data) => r matches Ok(d) && d == data,
                QueryResultType::WithoutRowData(_) => r matches Err(e) && e.message@
                    == "map_err_with_data message:"@ + message@,
            },
    {
        match self {
            QueryResultType::WithRowData(data) => Ok(data),
            QueryResultType::WithoutRowData(_) => {
                let mut m = String::from_str("map_err_with_data message:");
                m.append(message);
                Err(BigqueryError { message: m })
            },
        }
    }

    /// The bare outcome, or an error built from `message` when rows came.
    pub fn map_err_without_data(self, message: &str) -> (r: Result<(), BigqueryError>)
        ensures
            match self {
                QueryResultType::WithoutRowData(result) => r == result,
                QueryResultType::WithRowData(_) => r matches Err(e) && e.message@
                    == "map_err_without_data message:"@ + message@,
            },
    {
        match self {
            QueryResultType::WithoutRowData(result) => result,
            QueryResultType::WithRowData(_) => {
                let mut m = String::from_str("map_err_without_data message:");
                m.append(message);
                Err(BigqueryError { message: m })
            },
        }
    }

    /// The rows of a result known to carry them.
    pub fn expect_with_data(self, message: &str) -> (r: Vec<T>)
        requires
            self is WithRowData,
        ensures
            self matches QueryResultType::WithRowData(data) && r == data,
    {
        match self {
            QueryResultType::WithRowData(data) => data,
            QueryResultType::WithoutRowData(_) => {
                proof {
                    assert(false);
                }
                Vec::new()
            },
        }
    }

    /// The bare outcome of a result known to carry no rows.
    pub fn expect_without_data(self, message: &str) -> (r: Result<(), BigqueryError>)
        requires
            self is WithoutRowData,
        ensures
            self matches QueryResultType::WithoutRowData(result) && r == result,
    {
        match self {
            QueryResultType::WithoutRowData(result) => result,
            QueryResultType::WithRowData(_) => {
                proof {
                    assert(false);
                }
                Ok(())
            },
        }
    }

    pub fn is_with_row_data(&self) -> (r: bool)
        ensures
            r == (self is WithRowData),
    {
        match self {
            QueryResultType::WithRowData(_) => true,
            QueryResultType::WithoutRowData(_) => false,
        }
    }

    pub fn is_without_row_data(&self) -> (r: bool)
        ensures
            r == (self is WithoutRowData),
    {
        match self {
            QueryResultType::WithRowData(_) => false,
            QueryResultType::WithoutRowData(_) => true,
        }
    }
}

// ---------------------------------------------------------------------------
// Typestate markers
// ---------------------------------------------------------------------------

/// Data payload present: the record a statement starts from.
#[derive(Debug)]
pub struct HasStartingData(pub Record);

/// No data payload yet.
#[derive(Debug, Clone)]
pub struct NoStartingData;

/// Client attached: the coordinates queries are addressed to.
#[derive(Debug)]
pub struct HasClient(pub BigqueryClient);

/// No client attached yet.
#[derive(Debug, Clone)]
pub struct NoClient;

/// The query text has been built.
#[derive(Debug, Clone)]
pub struct QueryWasBuilt;

/// The query text has not been built yet.
#[derive(Debug, Clone)]
pub struct QueryWasNotBuilt;

/// No statement kind chosen yet.
#[derive(Debug, Clone)]
pub struct QueryTypeNoType;

/// An INSERT statement.
#[derive(Debug, Clone)]
pub struct QueryTypeInsert;

/// A SELECT statement.
#[derive(Debug, Clone)]
pub struct QueryTypeSelect;

/// An UPDATE statement.
#[derive(Debug, Clone)]
pub struct QueryTypeUpdate;

/// A DELETE statement.
#[derive(Debug, Clone)]
pub struct QueryTypeDelete;

/// A chosen statement kind; SELECT is the one whose response carries rows.
pub trait HasQueryType {
    /// Whether this kind is the SELECT kind.
    spec fn spec_is_select() -> bool;

    fn kind_is_select() -> (r: bool)
        ensures
            r == Self::spec_is_select(),
    ;
}

/// No statement kind chosen.
pub trait HasNoQueryType {

}

impl HasNoQueryType for QueryTypeNoType {

}

impl HasQueryType for QueryTypeInsert {
    open spec fn spec_is_select() -> bool {
        false
    }

    fn kind_is_select() -> (r: bool) {
        false
    }
}

impl HasQueryType for QueryTypeSelect {
    open spec fn spec_is_select() -> bool {
        true
    }

    fn kind_is_select() -> (r: bool) {
        true
    }
}

impl HasQueryType for QueryTypeUpdate {
    open spec fn spec_is_select() -> bool {
        false
    }

    fn kind_is_select() -> (r: bool) {
        false
    }
}

impl HasQueryType for QueryTypeDelete {
    open spec fn spec_is_select() -> bool {
        false
    }

    fn kind_is_select() -> (r: bool) {
        false
    }
}

// ---------------------------------------------------------------------------
// Spec helpers over builder state
// ---------------------------------------------------------------------------

/// The views of a parameter list.
pub open spec fn spec_params(ps: Seq<QueryParam>) -> Seq<SpecParam> {
    ps.map_values(|p: QueryParam| p@)
}

/// The views of an order-by list.
pub open spec fn spec_orders(v: Seq<(String, OrderDirection)>) -> Seq<(Seq<char>, OrderDirection)> {
    v.map_values(|p: (String, OrderDirection)| (p.0@, p.1))
}

/// Whether a parameter list holds a parameter of the given name.
pub open spec fn spec_has_param_named(ps: Seq<SpecParam>, name: Seq<char>) -> bool {
    exists|k: int| 0 <= k < ps.len() && (#[trigger] ps[k]).name == name
}

/// The column names of a statement's column list, in schema order.
pub open spec fn spec_column_names(s: SpecSchema) -> Seq<Seq<char>> {
    s.query_fields(true).map_values(|f: SpecField| f.db_name)
}

/// The column list as emitted: the column names joined by `, `.
pub open spec fn spec_fields_string(s: SpecSchema) -> Seq<char> {
    spec_join(spec_column_names(s), ", "@)
}

/// The `WHERE` clause as emitted: nothing without conditions, else the
/// conditions joined by ` AND ` after ` WHERE `.
pub open spec fn spec_where_string(wheres: Seq<Seq<char>>) -> Seq<char> {
    if wheres.len() == 0 {
        Seq::empty()
    } else {
        " WHERE "@ + spec_join(wheres, " AND "@)
    }
}

/// One `ORDER BY` item: the resolved column name, a space, the direction.
/// Nothing when the column name resolves to no field.
pub open spec fn spec_order_items(s: SpecSchema, obs: Seq<(Seq<char>, OrderDirection)>) -> Option<
    Seq<Seq<char>>,
>
    decreases obs.len(),
{
    if obs.len() == 0 {
        Some(Seq::empty())
    } else {
        match s.db_of_local(obs[0].0) {
            Some(db) => {
                let item = db + seq![' '] + obs[0].1.spec_query_str();
                match spec_order_items(s, obs.drop_first()) {
                    Some(rest) => Some(seq![item] + rest),
                    None => None,
                }
            },
            None => None,
        }
    }
}

/// The `ORDER BY` clause as emitted: nothing without keys, else the items
/// joined by `, ` after ` ORDER BY `.
pub open spec fn spec_order_string(items: Seq<Seq<char>>) -> Seq<char> {
    if items.len() == 0 {
        Seq::empty()
    } else {
        " ORDER BY "@ + spec_join(items, ", "@)
    }
}

/// The `LIMIT` clause as emitted: nothing without a limit.
pub open spec fn spec_limit_string(limit: Option<u32>) -> Seq<char> {
    match limit {
        Some(n) => " LIMIT "@ + spec_dec(n as nat),
        None => Seq::empty(),
    }
}

/// Folds one parameter per active field of the record into `acc`, in schema
/// order: a field contributes its parameter when its stored value is not
/// null and no parameter of that name is present yet.
pub open spec fn spec_folded_params(
    acc: Seq<SpecParam>,
    fs: Seq<SpecField>,
    vals: Seq<JsonVal>,
) -> Seq<SpecParam>
    decreases fs.len(),
{
    if fs.len() == 0 || vals.len() == 0 {
        acc
    } else {
        let acc2 = if crate::schema::field_active(fs[0]) {
            match spec_param_for_field(fs[0], vals[0]) {
                Some(p) => if spec_has_param_named(acc, p.name) {
                    acc
                } else {
                    acc.push(p)
                },
                None => acc,
            }
        } else {
            acc
        };
        spec_folded_params(acc2, fs.drop_first(), vals.drop_first())
    }
}

/// The VALUES entry of each column of an INSERT: a reference to the
/// column's parameter when the list holds one, else the literal `NULL`.
pub open spec fn spec_value_tokens(cols: Seq<SpecField>, ps: Seq<SpecParam>) -> Seq<Seq<char>> {
    cols.map_values(
        |f: SpecField|
            if spec_has_param_named(ps, spec_param_name_of(f.db_name)) {
                "@"@ + spec_param_name_of(f.db_name)
            } else {
                "NULL"@
            },
    )
}

/// The SET entry of each column of an UPDATE: the column set to its
/// parameter when the list holds one, else to the literal `NULL`.
pub open spec fn spec_update_items(cols: Seq<SpecField>, ps: Seq<SpecParam>) -> Seq<Seq<char>> {
    cols.map_values(
        |f: SpecField|
            if spec_has_param_named(ps, spec_param_name_of(f.db_name)) {
                f.db_name + " = @"@ + spec_param_name_of(f.db_name)
            } else {
                f.db_name + " = NULL"@
            },
    )
}

/// Whether the list holds a parameter named `name`.
pub fn has_param_named(ps: &Vec<QueryParam>, name: &str) -> (r: bool)
    ensures
        r == spec_has_param_named(spec_params(ps@), name@),
{
    let mut i: usize = 0;
    while i < ps.len()
        invariant
            i <= ps@.len(),
            forall|k: int| 0 <= k < i ==> (#[trigger] spec_params(ps@)[k]).name != name@,
        decreases ps@.len() - i,
    {
        proof {
            assert(spec_params(ps@)[i as int] == ps@[i as int]@);
        }
        if str_eq(ps[i].name.as_str(), name) {
            return true;
        }
        i = i + 1;
    }
    false
}

// ---------------------------------------------------------------------------
// Laws of the emitted statements
// ---------------------------------------------------------------------------

/// How many parameters of the list bear the given name.
pub open spec fn spec_count_named(ps: Seq<SpecParam>, name: Seq<char>) -> int {
    ps.filter(|p: SpecParam| p.name == name).len() as int
}

/// A name is present exactly when its count is positive.
pub proof fn lemma_has_iff_count(ps: Seq<SpecParam>, name: Seq<char>)
    ensures
        spec_has_param_named(ps, name) <==> spec_count_named(ps, name) > 0,
{
    broadcast use vstd::seq_lib::group_filter_ensures;

    let pred = |p: SpecParam| p.name == name;
    if spec_has_param_named(ps, name) {
        let k = choose|k: int| 0 <= k < ps.len() && (#[trigger] ps[k]).name == name;
        assert(ps.contains(ps[k]));
        assert(ps.filter(pred).contains(ps[k]));
    }
    if spec_count_named(ps, name) > 0 {
        let f = ps.filter(pred)[0];
        assert(ps.filter(pred).contains(f));
        ps.lemma_filter_contains_rev(pred, f);
        assert(pred(f) && ps.contains(f));
        let k = choose|k: int| 0 <= k < ps.len() && ps[k] == f;
        assert(ps[k].name == name);
    }
}

/// Appending a parameter raises exactly its own name's count.
proof fn lemma_count_push(ps: Seq<SpecParam>, p: SpecParam, name: Seq<char>)
    ensures
        spec_count_named(ps.push(p), name) == spec_count_named(ps, name) + (if p.name == name {
            1int
        } else {
            0int
        }),
{
    let pred = |q: SpecParam| q.name == name;
    ps.lemma_filter_push(p, pred);
}

/// Whether some active field of the record would contribute a parameter of
/// the given name.
pub open spec fn spec_contributes(fs: Seq<SpecField>, vals: Seq<JsonVal>, name: Seq<char>) -> bool {
    exists|j: int|
        0 <= j < fs.len() && j < vals.len() && crate::schema::field_active(#[trigger] fs[j]) && !(
        vals[j] is Null) && spec_param_name_of(fs[j].db_name) == name
}

/// What the fold does to one name's count: nothing when the name is
/// already present or no field contributes it, else one more.
proof fn lemma_fold_count(
    acc: Seq<SpecParam>,
    fs: Seq<SpecField>,
    vals: Seq<JsonVal>,
    name: Seq<char>,
)
    requires
        fs.len() == vals.len(),
    ensures
        spec_count_named(spec_folded_params(acc, fs, vals), name) == spec_count_named(acc, name) + (
        if !spec_has_param_named(acc, name) && spec_contributes(fs, vals, name) {
            1int
        } else {
            0int
        }),
    decreases fs.len(),
{
    lemma_has_iff_count(acc, name);
    if fs.len() == 0 {
    } else {
        let head_match = crate::schema::field_active(fs[0]) && !(vals[0] is Null)
            && spec_param_name_of(fs[0].db_name) == name;
        assert(spec_contributes(fs, vals, name) <==> (head_match || spec_contributes(
            fs.drop_first(),
            vals.drop_first(),
            name,
        ))) by {
            if spec_contributes(fs, vals, name) {
                let j = choose|j: int|
                    0 <= j < fs.len() && j < vals.len() && crate::schema::field_active(
                        #[trigger] fs[j],
                    ) && !(vals[j] is Null) && spec_param_name_of(fs[j].db_name) == name;
                if j > 0 {
                    assert(fs.drop_first()[j - 1] == fs[j]);
                    assert(vals.drop_first()[j - 1] == vals[j]);
                }
            }
            if spec_contributes(fs.drop_first(), vals.drop_first(), name) {
                let j = choose|j: int|
                    0 <= j < fs.drop_first().len() && j < vals.drop_first().len()
                        && crate::schema::field_active(#[trigger] fs.drop_first()[j]) && !(
                    vals.drop_first()[j] is Null) && spec_param_name_of(
                        fs.drop_first()[j].db_name,
                    ) == name;
                assert(fs[j + 1] == fs.drop_first()[j]);
                assert(vals[j + 1] == vals.drop_first()[j]);
            }
        }
        let acc2 = if crate::schema::field_active(fs[0]) {
            match spec_param_for_field(fs[0], vals[0]) {
                Some(p) => if spec_has_param_named(acc, p.name) {
                    acc
                } else {
                    acc.push(p)
                },
                None => acc,
            }
        } else {
            acc
        };
        assert(spec_folded_params(acc, fs, vals) == spec_folded_params(
            acc2,
            fs.drop_first(),
            vals.drop_first(),
        ));
        lemma_fold_count(acc2, fs.drop_first(), vals.drop_first(), name);
        lemma_has_iff_count(acc2, name);
        if crate::schema::field_active(fs[0]) && !(vals[0] is Null) {
            let p = spec_param_for_field(fs[0], vals[0])->Some_0;
            if !spec_has_param_named(acc, p.name) {
                lemma_count_push(acc, p, name);
            }
        }
    }
}

/// Parameter names are the column names, one for one.
proof fn lemma_param_name_injective(a: Seq<char>, b: Seq<char>)
    requires
        spec_param_name_of(a) == spec_param_name_of(b),
    ensures
        a == b,
{
    reveal_strlit("__PARAM_");
    assert("__PARAM_"@.len() == 8);
    assert(a =~= spec_param_name_of(a).skip(8));
    assert(b =~= spec_param_name_of(b).skip(8));
}

/// The parameter and VALUES lists of an INSERT built from a record with no
/// parameters recorded yet: every active field with a non-null stored
/// value contributes exactly one parameter, named `__PARAM_<column>`, and
/// its VALUES entry — standing at the field's position in the emitted
/// column list — references that parameter; a field whose stored value is
/// null contributes no parameter, and its VALUES entry is the literal
/// `NULL`.
pub proof fn lemma_insert_parameter_law(s: SpecSchema, vals: Seq<JsonVal>)
    requires
        s.wf(),
        vals.len() == s.fields.len(),
    ensures
        forall|i: int|
            0 <= i < s.fields.len() && crate::schema::field_active(#[trigger] s.fields[i]) ==> {
                let folded = spec_folded_params(Seq::empty(), s.fields, vals);
                let name = spec_param_name_of(s.fields[i].db_name);
                let k = crate::record::active_rank(s.fields, i);
                &&& (!(vals[i] is Null) ==> spec_count_named(folded, name) == 1
                    && spec_value_tokens(s.query_fields(true), folded)[k] == "@"@ + name)
                &&& (vals[i] is Null ==> spec_count_named(folded, name) == 0 && spec_value_tokens(
                    s.query_fields(true),
                    folded,
                )[k] == "NULL"@)
            },
{
    crate::schema::lemma_query_fields_law(s);
    let folded = spec_folded_params(Seq::empty(), s.fields, vals);
    assert(spec_count_named(Seq::empty(), Seq::<char>::empty()) == 0);
    assert forall|i: int|
        0 <= i < s.fields.len() && crate::schema::field_active(#[trigger] s.fields[i]) implies {
        let name = spec_param_name_of(s.fields[i].db_name);
        let k = crate::record::active_rank(s.fields, i);
        &&& (!(vals[i] is Null) ==> spec_count_named(folded, name) == 1 && spec_value_tokens(
            s.query_fields(true),
            folded,
        )[k] == "@"@ + name)
        &&& (vals[i] is Null ==> spec_count_named(folded, name) == 0 && spec_value_tokens(
            s.query_fields(true),
            folded,
        )[k] == "NULL"@)
    } by {
        let name = spec_param_name_of(s.fields[i].db_name);
        let k = crate::record::active_rank(s.fields, i);
        assert(spec_count_named(Seq::<SpecParam>::empty(), name) == 0) by {
            reveal(Seq::filter);
        }
        assert(!spec_has_param_named(Seq::<SpecParam>::empty(), name));
        lemma_fold_count(Seq::empty(), s.fields, vals, name);
        assert(spec_contributes(s.fields, vals, name) <==> !(vals[i] is Null)) by {
            if spec_contributes(s.fields, vals, name) {
                let j = choose|j: int|
                    0 <= j < s.fields.len() && j < vals.len() && crate::schema::field_active(
                        #[trigger] s.fields[j],
                    ) && !(vals[j] is Null) && spec_param_name_of(s.fields[j].db_name) == name;
                lemma_param_name_injective(s.fields[j].db_name, s.fields[i].db_name);
                if j != i {
                    if j < i {
                        assert(s.fields[j].db_name != s.fields[i].db_name);
                    } else {
                        assert(s.fields[i].db_name != s.fields[j].db_name);
                    }
                }
            }
        }
        crate::record::lemma_filter_rank(s.fields, i);
        assert(s.query_fields(true)[k] == s.fields[i]);
        lemma_has_iff_count(folded, name);
        assert(spec_value_tokens(s.query_fields(true), folded)[k] == (
        if spec_has_param_named(folded, spec_param_name_of(s.query_fields(true)[k].db_name)) {
            "@"@ + spec_param_name_of(s.query_fields(true)[k].db_name)
        } else {
            "NULL"@
        }));
    }
}

/// The emitted SELECT column list and the row decoder keep one and the
/// same order: the decoder fills the slot of each selected field from the
/// cell standing at exactly the position that field's column has in the
/// emitted list.
pub proof fn lemma_select_columns_drive_decode(s: SpecSchema, cells: Seq<JsonVal>)
    requires
        s.wf(),
        crate::record::spec_decode_fields(s.fields, cells) is Some,
    ensures
        forall|i: int|
            0 <= i < s.fields.len() && crate::schema::field_active(#[trigger] s.fields[i]) ==> {
                let k = crate::record::active_rank(s.fields, i);
                &&& 0 <= k < spec_column_names(s).len()
                &&& spec_column_names(s)[k] == s.fields[i].db_name
                &&& crate::record::spec_decode_field(
                    s.fields[i],
                    crate::record::spec_cell_at(cells, k),
                ) == Some(crate::record::spec_decode_fields(s.fields, cells)->Some_0[i])
            },
{
    crate::schema::lemma_query_fields_law(s);
    crate::record::lemma_decode_positions(s.fields, cells);
    assert forall|i: int|
        0 <= i < s.fields.len() && crate::schema::field_active(#[trigger] s.fields[i]) implies {
        let k = crate::record::active_rank(s.fields, i);
        &&& 0 <= k < spec_column_names(s).len()
        &&& spec_column_names(s)[k] == s.fields[i].db_name
        &&& crate::record::spec_decode_field(s.fields[i], crate::record::spec_cell_at(cells, k))
            == Some(crate::record::spec_decode_fields(s.fields, cells)->Some_0[i])
    } by {
        crate::record::lemma_filter_rank(s.fields, i);
        let k = crate::record::active_rank(s.fields, i);
        assert(s.query_fields(true)[k] == s.fields[i]);
        assert(spec_column_names(s)[k] == s.query_fields(true)[k].db_name);
    }
}

/// The condition `add_where_eq` appends for a present value: the resolved
/// column name compared to the fresh parameter.
pub open spec fn spec_where_eq_fragment(db: Seq<char>, param_name: Seq<char>) -> Seq<char> {
    db + " = @"@ + param_name
}

/// The condition appended for an absent value: the column is null.
pub open spec fn spec_where_null_fragment(db: Seq<char>) -> Seq<char> {
    db + " is NULL"@
}

// ---------------------------------------------------------------------------
// The builder
// ---------------------------------------------------------------------------

/// A statement under construction. The four type parameters are the
/// compile-time axes; the fields hold the accumulated state, which every
/// transition preserves except where its contract says otherwise.
#[derive(Debug)]
pub struct QueryBuilder<QueryType, Client, QueryBuilt, StartingData> {
    pub schema: TableSchema,
    pub client: Client,
    pub query: String,
    pub params: Vec<QueryParam>,
    pub where_clauses: Vec<String>,
    pub order_by: Vec<(String, OrderDirection)>,
    pub limit: Option<u32>,
    pub starting_data: StartingData,
    pub query_type: PhantomData<QueryType>,
    pub query_built: PhantomData<QueryBuilt>,
}

impl Clone for HasClient {
    fn clone(&self) -> (r: Self)
        ensures
            r.0@ == self.0@,
    {
        HasClient(self.0.clone())
    }
}

impl Clone for HasStartingData {
    fn clone(&self) -> (r: Self)
        ensures
            r.0@ == self.0@,
    {
        HasStartingData(self.0.clone())
    }
}

impl<QueryType, Client: Clone, QueryBuilt, StartingData: Clone> Clone for QueryBuilder<
    QueryType,
    Client,
    QueryBuilt,
    StartingData,
> {
    /// Builders are cheaply cloneable, so one logical query can be built
    /// or run more than once. The clone keeps the accumulated state; the
    /// attached client and starting data are cloned by their own impls.
    fn clone(&self) -> (r: Self)
        ensures
            r.schema@ == self.schema@,
            r.query@ == self.query@,
            spec_params(r.params@) == spec_params(self.params@),
            seq_views(r.where_clauses@) == seq_views(self.where_clauses@),
            spec_orders(r.order_by@) == spec_orders(self.order_by@),
            r.limit == self.limit,
    {
        let mut where_clauses: Vec<String> = Vec::new();
        let mut i: usize = 0;
        while i < self.where_clauses.len()
            invariant
                i <= self.where_clauses@.len(),
                where_clauses@.len() == i,
                forall|k: int|
                    0 <= k < i ==> (#[trigger] where_clauses@[k])@ == self.where_clauses@[k]@,
            decreases self.where_clauses@.len() - i,
        {
            where_clauses.push(self.where_clauses[i].clone());
            i = i + 1;
        }
        let mut order_by: Vec<(String, OrderDirection)> = Vec::new();
        let mut j: usize = 0;
        while j < self.order_by.len()
            invariant
                j <= self.order_by@.len(),
                order_by@.len() == j,
                forall|k: int|
                    0 <= k < j ==> (#[trigger] order_by@[k]).0@ == self.order_by@[k].0@
                        && order_by@[k].1 == self.order_by@[k].1,
            decreases self.order_by@.len() - j,
        {
            let (column, direction) = &self.order_by[j];
            order_by.push((column.clone(), *direction));
            j = j + 1;
        }
        let r = QueryBuilder {
            schema: self.schema.clone(),
            client: self.client.clone(),
            query: self.query.clone(),
            params: clone_params(&self.params),
            where_clauses,
            order_by,
            limit: self.limit,
            starting_data: self.starting_data.clone(),
            query_type: PhantomData,
            query_built: PhantomData,
        };
        proof {
            assert(seq_views(r.where_clauses@) =~= seq_views(self.where_clauses@));
            assert(spec_orders(r.order_by@) =~= spec_orders(self.order_by@));
        }
        r
    }
}

impl QueryBuilder<QueryTypeNoType, NoClient, QueryWasNotBuilt, NoStartingData> {
    /// A fresh SELECT builder over the schema.
    pub fn select(schema: TableSchema) -> (r: QueryBuilder<
        QueryTypeSelect,
        NoClient,
        QueryWasNotBuilt,
        NoStartingData,
    >)
        ensures
            r.schema@ == schema@,
            r.query@.len() == 0,
            r.params@.len() == 0,
            r.where_clauses@.len() == 0,
            r.order_by@.len() == 0,
            r.limit is None,
    {
        QueryBuilder {
            schema,
            client: NoClient,
            query: String::new(),
            params: Vec::new(),
            where_clauses: Vec::new(),
            order_by: Vec::new(),
            limit: None,
            starting_data: NoStartingData,
            query_type: PhantomData,
            query_built: PhantomData,
        }
    }

    /// A fresh INSERT builder over the schema.
    pub fn insert(schema: TableSchema) -> (r: QueryBuilder<
        QueryTypeInsert,
        NoClient,
        QueryWasNotBuilt,
        NoStartingData,
    >)
        ensures
            r.schema@ == schema@,
            r.query@.len() == 0,
            r.params@.len() == 0,
            r.where_clauses@.len() == 0,
            r.order_by@.len() == 0,
            r.limit is None,
    {
        QueryBuilder {
            schema,
            client: NoClient,
            query: String::new(),
            params: Vec::new(),
            where_clauses: Vec::new(),
            order_by: Vec::new(),
            limit: None,
            starting_data: NoStartingData,
            query_type: PhantomData,
            query_built: PhantomData,
        }
    }

    /// A fresh UPDATE builder over the schema.
    pub fn update(schema: TableSchema) -> (r: QueryBuilder<
        QueryTypeUpdate,
        NoClient,
        QueryWasNotBuilt,
        NoStartingData,
    >)
        ensures
            r.schema@ == schema@,
            r.query@.len() == 0,
            r.params@.len() == 0,
            r.where_clauses@.len() == 0,
            r.order_by@.len() == 0,
            r.limit is None,
    {
        QueryBuilder {
            schema,
            client: NoClient,
            query: String::new(),
            params: Vec::new(),
            where_clauses: Vec::new(),
            order_by: Vec::new(),
            limit: None,
            starting_data: NoStartingData,
            query_type: PhantomData,
            query_built: PhantomData,
        }
    }

    /// A fresh DELETE builder over the schema.
    pub fn delete(schema: TableSchema) -> (r: QueryBuilder<
        QueryTypeDelete,
        NoClient,
        QueryWasNotBuilt,
        NoStartingData,
    >)
        ensures
            r.schema@ == schema@,
            r.query@.len() == 0,
            r.params@.len() == 0,
            r.where_clauses@.len() == 0,
            r.order_by@.len() == 0,
            r.limit is None,
    {
        QueryBuilder {
            schema,
            client: NoClient,
            query: String::new(),
            params: Vec::new(),
            where_clauses: Vec::new(),
            order_by: Vec::new(),
            limit: None,
            starting_data: NoStartingData,
            query_type: PhantomData,
            query_built: PhantomData,
        }
    }
}

impl<QueryType, StartingData> QueryBuilder<QueryType, NoClient, QueryWasNotBuilt, StartingData> {
    /// Attaches the client the statement will run through.
    pub fn with_client(self, client: BigqueryClient) -> (r: QueryBuilder<
        QueryType,
        HasClient,
        QueryWasNotBuilt,
        StartingData,
    >)
        ensures
            r.schema@ == self.schema@,
            r.client.0@ == client@,
            r.query@ == self.query@,
            r.params@ == self.params@,
            r.where_clauses@ == self.where_clauses@,
            r.order_by@ == self.order_by@,
            r.limit == self.limit,
            r.starting_data == self.starting_data,
    {
        QueryBuilder {
            schema: self.schema,
            client: HasClient(client),
            query: self.query,
            params: self.params,
            where_clauses: self.where_clauses,
            order_by: self.order_by,
            limit: self.limit,
            starting_data: self.starting_data,
            query_type: PhantomData,
            query_built: PhantomData,
        }
    }
}

impl<QueryType: HasQueryType, Client> QueryBuilder<
    QueryType,
    Client,
    QueryWasNotBuilt,
    NoStartingData,
> {
    /// Attaches the record the statement starts from.
    pub fn set_data(self, data: Record) -> (r: QueryBuilder<
        QueryType,
        Client,
        QueryWasNotBuilt,
        HasStartingData,
    >)
        ensures
            r.schema@ == self.schema@,
            r.client == self.client,
            r.query@ == self.query@,
            r.params@ == self.params@,
            r.where_clauses@ == self.where_clauses@,
            r.order_by@ == self.order_by@,
            r.limit == self.limit,
            r.starting_data.0@ == data@,
    {
        QueryBuilder {
            schema: self.schema,
            client: self.client,
            query: self.query,
            params: self.params,
            where_clauses: self.where_clauses,
            order_by: self.order_by,
            limit: self.limit,
            starting_data: HasStartingData(data),
            query_type: PhantomData,
            query_built: PhantomData,
        }
    }
}

impl<Client, StartingData> QueryBuilder<QueryTypeSelect, Client, QueryWasNotBuilt, StartingData> {
    /// Caps the number of rows the SELECT returns.
    pub fn set_limit(self, limit: u32) -> (r: Self)
        ensures
            r.schema@ == self.schema@,
            r.client == self.client,
            r.query@ == self.query@,
            r.params@ == self.params@,
            r.where_clauses@ == self.where_clauses@,
            r.order_by@ == self.order_by@,
            r.limit == Some(limit),
            r.starting_data == self.starting_data,
    {
        QueryBuilder { limit: Some(limit), ..self }
    }

    /// Appends an `ORDER BY` key; the name resolves at build time.
    pub fn add_order_by(self, column_name: &str, direction: OrderDirection) -> (r: Self)
        ensures
            r.schema@ == self.schema@,
            r.client == self.client,
            r.query@ == self.query@,
            r.params@ == self.params@,
            r.where_clauses@ == self.where_clauses@,
            spec_orders(r.order_by@) == spec_orders(self.order_by@).push(
                (column_name@, direction),
            ),
            r.limit == self.limit,
            r.starting_data == self.starting_data,
    {
        let mut order_by = self.order_by;
        let ghost before = spec_orders(order_by@);
        order_by.push((String::from_str(column_name), direction));
        proof {
            assert(spec_orders(order_by@) =~= before.push((column_name@, direction)));
        }
        QueryBuilder { order_by, ..self }
    }
}

impl<QueryType, Client, QueryBuilt, StartingData> QueryBuilder<
    QueryType,
    Client,
    QueryBuilt,
    StartingData,
> {
    /// The column list of the schema, one pair of local and column name per
    /// selected field, in the deterministic schema order.
    pub fn get_sorted_selected_fields(&self) -> (r: Vec<(String, String)>)
        ensures
            r@.len() == self.schema@.query_fields(true).len(),
            forall|k: int|
                0 <= k < r@.len() ==> (#[trigger] r@[k]).0@ == self.schema@.query_fields(
                    true,
                )[k].local_name && r@[k].1@ == self.schema@.query_fields(true)[k].db_name,
    {
        self.schema.get_query_fields(true)
    }

    /// The emitted column list: the column names joined by `, `.
    pub fn get_fields_string(&self) -> (r: String)
        ensures
            r@ == spec_fields_string(self.schema@),
    {
        let pairs = self.schema.get_query_fields(true);
        let mut dbs: Vec<String> = Vec::new();
        let mut i: usize = 0;
        while i < pairs.len()
            invariant
                i <= pairs@.len(),
                pairs@.len() == self.schema@.query_fields(true).len(),
                forall|k: int|
                    0 <= k < pairs@.len() ==> (#[trigger] pairs@[k]).1@ == self.schema@.query_fields(
                        true,
                    )[k].db_name,
                dbs@.len() == i,
                forall|k: int|
                    0 <= k < i ==> (#[trigger] dbs@[k])@ == self.schema@.query_fields(
                        true,
                    )[k].db_name,
            decreases pairs@.len() - i,
        {
            let (_, db) = &pairs[i];
            dbs.push(db.clone());
            i = i + 1;
        }
        proof {
            assert(seq_views(dbs@) =~= spec_column_names(self.schema@));
        }
        crate::textfmt::join_strings(&dbs, ", ")
    }

    /// The emitted `WHERE` clause of the accumulated conditions.
    pub fn build_where_string(&self) -> (r: String)
        ensures
            r@ == spec_where_string(seq_views(self.where_clauses@)),
    {
        if self.where_clauses.len() == 0 {
            String::new()
        } else {
            let mut s = String::from_str(" WHERE ");
            let joined = crate::textfmt::join_strings(&self.where_clauses, " AND ");
            s.append(joined.as_str());
            s
        }
    }

    /// The emitted `ORDER BY` clause; refused when a key's column name
    /// resolves to no field.
    pub fn build_order_by_string(&self) -> (r: Result<String, BigqueryError>)
        ensures
            match r {
                Ok(s) => spec_order_items(self.schema@, spec_orders(self.order_by@)) matches Some(
                    items,
                ) && s@ == spec_order_string(items),
                Err(_) => spec_order_items(self.schema@, spec_orders(self.order_by@)) is None,
            },
    {
        let ghost sch = self.schema@;
        let ghost obs = spec_orders(self.order_by@);
        if self.order_by.len() == 0 {
            return Ok(String::new());
        }
        let n = self.order_by.len();
        let mut items: Vec<String> = Vec::new();
        let mut i: usize = 0;
        proof {
            assert(obs.skip(0) =~= obs);
        }
        while i < n
            invariant
                n == self.order_by@.len(),
                sch == self.schema@,
                obs == spec_orders(self.order_by@),
                n == obs.len(),
                i <= n,
                items@.len() == i,
                spec_order_items(sch, obs) == (match spec_order_items(sch, obs.skip(i as int)) {
                    Some(rest) => Some(seq_views(items@) + rest),
                    None => None::<Seq<Seq<char>>>,
                }),
            decreases n - i,
        {
            proof {
                assert(obs.skip(i as int)[0] == obs[i as int]);
                assert(obs[i as int] == (self.order_by@[i as int].0@, self.order_by@[i as int].1));
                assert(obs.skip(i as int).drop_first() =~= obs.skip(i as int + 1));
            }
            let (column, direction) = &self.order_by[i];
            let ghost before = seq_views(items@);
            match self.schema.get_field_db_name(column.as_str()) {
                Ok(db) => {
                    let mut item = db;
                    item.append(" ");
                    let dir = direction.to_query_str();
                    item.append(dir.as_str());
                    proof {
                        reveal_strlit(" ");
                        assert(" "@ =~= seq![' ']);
                    }
                    items.push(item);
                    proof {
                        assert(seq_views(items@) =~= before.push(
                            sch.db_of_local(obs[i as int].0)->Some_0 + seq![' ']
                                + obs[i as int].1.spec_query_str(),
                        ));
                        match spec_order_items(sch, obs.skip(i as int + 1)) {
                            Some(rest) => {
                                assert(before.push(seq_views(items@).last()) + rest
                                    =~= before + (seq![seq_views(items@).last()] + rest));
                            },
                            None => {
                            },
                        }
                    }
                },
                Err(_) => {
                    return Err(BigqueryError::new("order by column not found"));
                },
            }
            i = i + 1;
        }
        proof {
            assert(obs.skip(n as int).len() == 0);
            assert(spec_order_items(sch, obs.skip(n as int)) == Some(Seq::<Seq<char>>::empty()));
            assert(seq_views(items@) + Seq::<Seq<char>>::empty() =~= seq_views(items@));
        }
        let mut s = String::from_str(" ORDER BY ");
        let joined = crate::textfmt::join_strings(&items, ", ");
        s.append(joined.as_str());
        proof {
            match spec_order_items(sch, obs) {
                Some(its) => {
                    assert(its == seq_views(items@));
                    assert(its.len() == n);
                },
                None => {
                },
            }
        }
        Ok(s)
    }

    /// The emitted VALUES list of an INSERT: one entry per column, a
    /// parameter reference or the literal `NULL`, joined by `, `.
    fn get_values_params_string(&self) -> (r: String)
        ensures
            r@ == spec_join(
                spec_value_tokens(self.schema@.query_fields(true), spec_params(self.params@)),
                ", "@,
            ),
    {
        let ghost cols = self.schema@.query_fields(true);
        let ghost ps = spec_params(self.params@);
        let pairs = self.schema.get_query_fields(true);
        let mut tokens: Vec<String> = Vec::new();
        let mut i: usize = 0;
        while i < pairs.len()
            invariant
                cols == self.schema@.query_fields(true),
                ps == spec_params(self.params@),
                pairs@.len() == cols.len(),
                forall|k: int|
                    0 <= k < pairs@.len() ==> (#[trigger] pairs@[k]).1@ == cols[k].db_name,
                i <= pairs@.len(),
                tokens@.len() == i,
                forall|k: int|
                    0 <= k < i ==> (#[trigger] tokens@[k])@ == spec_value_tokens(cols, ps)[k],
            decreases pairs@.len() - i,
        {
            let (_, db) = &pairs[i];
            let pname = param_name_of(db.as_str());
            let token: String = if has_param_named(&self.params, pname.as_str()) {
                let mut t = String::from_str("@");
                t.append(pname.as_str());
                t
            } else {
                String::from_str("NULL")
            };
            tokens.push(token);
            i = i + 1;
        }
        proof {
            assert(seq_views(tokens@) =~= spec_value_tokens(cols, ps));
        }
        crate::textfmt::join_strings(&tokens, ", ")
    }

    /// The emitted SET list of an UPDATE: each column set to its parameter
    /// or to the literal `NULL`, joined by `, `.
    fn build_update_fields_string(&self) -> (r: String)
        ensures
            r@ == spec_join(
                spec_update_items(self.schema@.query_fields(true), spec_params(self.params@)),
                ", "@,
            ),
    {
        let ghost cols = self.schema@.query_fields(true);
        let ghost ps = spec_params(self.params@);
        let pairs = self.schema.get_query_fields(true);
        let mut items: Vec<String> = Vec::new();
        let mut i: usize = 0;
        while i < pairs.len()
            invariant
                cols == self.schema@.query_fields(true),
                ps == spec_params(self.params@),
                pairs@.len() == cols.len(),
                forall|k: int|
                    0 <= k < pairs@.len() ==> (#[trigger] pairs@[k]).1@ == cols[k].db_name,
                i <= pairs@.len(),
                items@.len() == i,
                forall|k: int|
                    0 <= k < i ==> (#[trigger] items@[k])@ == spec_update_items(cols, ps)[k],
            decreases pairs@.len() - i,
        {
            let (_, db) = &pairs[i];
            let pname = param_name_of(db.as_str());
            let mut item = db.clone();
            if has_param_named(&self.params, pname.as_str()) {
                item.append(" = @");
                item.append(pname.as_str());
            } else {
                item.append(" = NULL");
            }
            items.push(item);
            i = i + 1;
        }
        proof {
            assert(seq_views(items@) =~= spec_update_items(cols, ps));
        }
        crate::textfmt::join_strings(&items, ", ")
    }

    /// The emitted `LIMIT` clause.
    pub fn build_limit_string(&self) -> (r: String)
        ensures
            r@ == spec_limit_string(self.limit),
    {
        match self.limit {
            Some(n) => {
                let mut s = String::from_str(" LIMIT ");
                let num = crate::textfmt::u32_to_string(n);
                s.append(num.as_str());
                s
            },
            None => String::new(),
        }
    }
}

impl<QueryType, Client, StartingData> QueryBuilder<
    QueryType,
    Client,
    QueryWasNotBuilt,
    StartingData,
> {
    /// Appends the condition that a column equals a value, or is null.
    ///
    /// With a present value, a fresh parameter `__PARAM_<k>` is recorded —
    /// `k` counting the parameters so far — and `<column> = @__PARAM_<k>`
    /// appended; with an absent one, `<column> is NULL` and no parameter.
    /// An unknown column name is refused.
    pub fn add_where_eq<T: BigDataValueType>(self, column: &str, value: Option<&T>) -> (r: Result<
        Self,
        BigqueryError,
    >)
        requires
            value matches Some(v) ==> v.param_wf(),
        ensures
            match r {
                Ok(b) => {
                    &&& self.schema@.db_of_local(column@) matches Some(db)
                    &&& b.schema@ == self.schema@
                    &&& b.client == self.client
                    &&& b.query@ == self.query@
                    &&& b.order_by@ == self.order_by@
                    &&& b.limit == self.limit
                    &&& b.starting_data == self.starting_data
                    &&& (match value {
                        Some(v) => if v.spec_to_param() is Null {
                            spec_params(b.params@) == spec_params(self.params@) && seq_views(
                                b.where_clauses@,
                            ) == seq_views(self.where_clauses@).push(
                                spec_where_null_fragment(self.schema@.db_of_local(column@)->Some_0),
                            )
                        } else {
                            spec_params(b.params@) == spec_params(self.params@).push(
                                SpecParam {
                                    name: spec_param_name_of(
                                        spec_dec(self.params@.len() as nat),
                                    ),
                                    param_type: T::spec_bigquery_type(),
                                    value: spec_value_to_string(v.spec_to_param()),
                                },
                            ) && seq_views(b.where_clauses@) == seq_views(
                                self.where_clauses@,
                            ).push(
                                spec_where_eq_fragment(
                                    self.schema@.db_of_local(column@)->Some_0,
                                    spec_param_name_of(spec_dec(self.params@.len() as nat)),
                                ),
                            )
                        },
                        None => spec_params(b.params@) == spec_params(self.params@) && seq_views(
                            b.where_clauses@,
                        ) == seq_views(self.where_clauses@).push(
                            spec_where_null_fragment(self.schema@.db_of_local(column@)->Some_0),
                        ),
                    })
                },
                Err(e) => self.schema@.db_of_local(column@) is None && e.message@ == "Field "@
                    + column@ + " not found."@,
            },
    {
        let db = match self.schema.get_field_db_name(column) {
            Ok(db) => db,
            Err(e) => {
                return Err(e);
            },
        };
        let db_for_null = db.clone();
        let QueryBuilder {
            schema,
            client,
            query,
            mut params,
            mut where_clauses,
            order_by,
            limit,
            starting_data,
            ..
        } = self;
        let ghost params0 = spec_params(params@);
        let ghost wheres0 = seq_views(where_clauses@);
        let mut null_value = true;
        match value {
            Some(v) => {
                let count = usize_to_string(params.len());
                let pname = param_name_of(count.as_str());
                match get_parameter(v, &pname) {
                    Some(param) => {
                        let mut w = db;
                        w.append(" = @");
                        w.append(pname.as_str());
                        params.push(param);
                        where_clauses.push(w);
                        null_value = false;
                        proof {
                            assert(spec_params(params@) =~= params0.push(
                                SpecParam {
                                    name: spec_param_name_of(spec_dec(params0.len() as nat)),
                                    param_type: T::spec_bigquery_type(),
                                    value: spec_value_to_string(v.spec_to_param()),
                                },
                            ));
                            assert(seq_views(where_clauses@) =~= wheres0.push(
                                spec_where_eq_fragment(
                                    self.schema@.db_of_local(column@)->Some_0,
                                    spec_param_name_of(spec_dec(params0.len() as nat)),
                                ),
                            ));
                        }
                    },
                    None => {
                    },
                }
            },
            None => {
            },
        }
        if null_value {
            let mut w = db_for_null;
            w.append(" is NULL");
            where_clauses.push(w);
            proof {
                assert(spec_params(params@) =~= params0);
                assert(seq_views(where_clauses@) =~= wheres0.push(
                    spec_where_null_fragment(self.schema@.db_of_local(column@)->Some_0),
                ));
            }
        }
        Ok(
            QueryBuilder {
                schema,
                client,
                query,
                params,
                where_clauses,
                order_by,
                limit,
                starting_data,
                query_type: PhantomData,
                query_built: PhantomData,
            },
        )
    }
}

impl<QueryType, Client> QueryBuilder<QueryType, Client, QueryWasNotBuilt, HasStartingData> {
    /// Appends the condition that a column equals the starting record's
    /// value of the field named `field` — under the parameter
    /// `__PARAM_<column>` — or `<column> is NULL` where that value is null.
    /// An unknown field name is refused.
    pub fn add_field_where(self, field: &str) -> (r: Result<Self, BigqueryError>)
        requires
            self.starting_data.0@.wf(),
            self.starting_data.0@.schema == self.schema@,
        ensures
            match r {
                Ok(b) => {
                    &&& self.schema@.find_local(field@) matches Some(i)
                    &&& b.schema@ == self.schema@
                    &&& b.client == self.client
                    &&& b.query@ == self.query@
                    &&& b.order_by@ == self.order_by@
                    &&& b.limit == self.limit
                    &&& b.starting_data.0@ == self.starting_data.0@
                    &&& ({
                        let i = self.schema@.find_local(field@)->Some_0;
                        let f = self.schema@.fields[i];
                        let v = self.starting_data.0@.values[i];
                        if v is Null {
                            spec_params(b.params@) == spec_params(self.params@) && seq_views(
                                b.where_clauses@,
                            ) == seq_views(self.where_clauses@).push(
                                spec_where_null_fragment(f.db_name),
                            )
                        } else {
                            spec_params(b.params@) == spec_params(self.params@).push(
                                spec_param_for_field(f, v)->Some_0,
                            ) && seq_views(b.where_clauses@) == seq_views(
                                self.where_clauses@,
                            ).push(
                                spec_where_eq_fragment(f.db_name, spec_param_name_of(f.db_name)),
                            )
                        }
                    })
                },
                Err(e) => self.schema@.find_local(field@) is None && e.message@ == "Field "@
                    + field@ + " not found."@,
            },
    {
        proof {
            crate::schema::lemma_find_local_props(self.schema@.fields, field@);
        }
        let idx = match self.schema.field_index(field) {
            Some(i) => i,
            None => {
                let mut m = String::from_str("Field ");
                m.append(field);
                m.append(" not found.");
                return Err(BigqueryError { message: m });
            },
        };
        let QueryBuilder {
            schema,
            client,
            query,
            mut params,
            mut where_clauses,
            order_by,
            limit,
            starting_data,
            ..
        } = self;
        let ghost params0 = spec_params(params@);
        let ghost wheres0 = seq_views(where_clauses@);
        proof {
            assert(schema@.fields[idx as int] == schema.fields@[idx as int]@);
            assert(starting_data.0@.values[idx as int] == starting_data.0.values@[idx as int]@);
        }
        let db = schema.fields[idx].db_name.clone();
        match make_field_param(&schema.fields[idx], &starting_data.0.values[idx]) {
            Some(param) => {
                let pname = param_name_of(db.as_str());
                let mut w = db;
                w.append(" = @");
                w.append(pname.as_str());
                params.push(param);
                where_clauses.push(w);
                proof {
                    let f = self.schema@.fields[idx as int];
                    let v = self.starting_data.0@.values[idx as int];
                    assert(spec_params(params@) =~= params0.push(spec_param_for_field(f, v)->Some_0));
                    assert(seq_views(where_clauses@) =~= wheres0.push(
                        spec_where_eq_fragment(f.db_name, spec_param_name_of(f.db_name)),
                    ));
                }
            },
            None => {
                let mut w = db;
                w.append(" is NULL");
                where_clauses.push(w);
                proof {
                    let f = self.schema@.fields[idx as int];
                    assert(spec_params(params@) =~= params0);
                    assert(seq_views(where_clauses@) =~= wheres0.push(
                        spec_where_null_fragment(f.db_name),
                    ));
                }
            },
        }
        Ok(
            QueryBuilder {
                schema,
                client,
                query,
                params,
                where_clauses,
                order_by,
                limit,
                starting_data,
                query_type: PhantomData,
                query_built: PhantomData,
            },
        )
    }
}

impl<QueryType, Client> QueryBuilder<QueryType, Client, QueryWasNotBuilt, HasStartingData> {
    /// Folds one parameter per active field of the starting record into the
    /// parameter list, skipping fields whose stored value is null and names
    /// already present.
    fn add_params_for_table_query_fields(&mut self)
        requires
            old(self).starting_data.0@.wf(),
            old(self).starting_data.0@.schema == old(self).schema@,
        ensures
            spec_params(final(self).params@) == spec_folded_params(
                spec_params(old(self).params@),
                old(self).schema@.fields,
                old(self).starting_data.0@.values,
            ),
            final(self).schema@ == old(self).schema@,
            final(self).client == old(self).client,
            final(self).query@ == old(self).query@,
            final(self).where_clauses@ == old(self).where_clauses@,
            final(self).order_by@ == old(self).order_by@,
            final(self).limit == old(self).limit,
            final(self).starting_data.0@ == old(self).starting_data.0@,
    {
        let ghost fs = old(self).schema@.fields;
        let ghost vals = old(self).starting_data.0@.values;
        let ghost params0 = spec_params(old(self).params@);
        let n = self.schema.fields.len();
        let mut i: usize = 0;
        proof {
            assert(fs.skip(0) =~= fs);
            assert(vals.skip(0) =~= vals);
        }
        while i < n
            invariant
                old(self).starting_data.0@.wf(),
                old(self).starting_data.0@.schema == old(self).schema@,
                fs == old(self).schema@.fields,
                vals == old(self).starting_data.0@.values,
                params0 == spec_params(old(self).params@),
                n == fs.len(),
                n == vals.len(),
                i <= n,
                self.schema == old(self).schema,
                self.client == old(self).client,
                self.query == old(self).query,
                self.where_clauses == old(self).where_clauses,
                self.order_by == old(self).order_by,
                self.limit == old(self).limit,
                self.starting_data == old(self).starting_data,
                n == self.schema.fields@.len(),
                spec_folded_params(params0, fs, vals) == spec_folded_params(
                    spec_params(self.params@),
                    fs.skip(i as int),
                    vals.skip(i as int),
                ),
            decreases n - i,
        {
            proof {
                assert(fs.skip(i as int)[0] == fs[i as int]);
                assert(vals.skip(i as int)[0] == vals[i as int]);
                assert(fs.skip(i as int).drop_first() =~= fs.skip(i as int + 1));
                assert(vals.skip(i as int).drop_first() =~= vals.skip(i as int + 1));
                assert(fs[i as int] == self.schema.fields@[i as int]@);
                assert(vals[i as int] == self.starting_data.0.values@[i as int]@);
            }
            let f = &self.schema.fields[i];
            if !f.is_client && !f.is_ignored {
                match make_field_param(f, &self.starting_data.0.values[i]) {
                    Some(param) => {
                        let ghost prev = spec_params(self.params@);
                        if !has_param_named(&self.params, param.name.as_str()) {
                            proof {
                                assert(param@.name == param.name@);
                            }
                            self.params.push(param);
                            proof {
                                assert(spec_params(self.params@) =~= prev.push(
                                    spec_param_for_field(fs[i as int], vals[i as int])->Some_0,
                                ));
                            }
                        }
                    },
                    None => {
                    },
                }
            }
            i = i + 1;
        }
        proof {
            assert(fs.skip(n as int).len() == 0);
            assert(spec_folded_params(spec_params(self.params@), fs.skip(n as int), vals.skip(n as int))
                == spec_params(self.params@));
        }
    }
}

impl QueryBuilder<QueryTypeInsert, HasClient, QueryWasNotBuilt, HasStartingData> {
    /// Emits the INSERT:
    /// `insert into <identifier> (<columns>) values(<values>)`,
    /// after folding one parameter per non-null field of the starting
    /// record into the parameter list; columns whose parameter is absent
    /// appear as the literal `NULL` in the VALUES list.
    pub fn build_query(self) -> (r: Result<
        QueryBuilder<QueryTypeInsert, HasClient, QueryWasBuilt, HasStartingData>,
        BigqueryError,
    >)
        requires
            self.starting_data.0@.wf(),
            self.starting_data.0@.schema == self.schema@,
        ensures
            r matches Ok(b) && {
                let folded = spec_folded_params(
                    spec_params(self.params@),
                    self.schema@.fields,
                    self.starting_data.0@.values,
                );
                &&& spec_params(b.params@) == folded
                &&& b.query@ == "insert into "@ + spec_table_identifier(
                    self.client.0@,
                    self.schema@.table_name,
                ) + " ("@ + spec_fields_string(self.schema@) + ") values("@ + spec_join(
                    spec_value_tokens(self.schema@.query_fields(true), folded),
                    ", "@,
                ) + ")"@
                &&& b.schema@ == self.schema@
                &&& b.client == self.client
                &&& b.where_clauses@ == self.where_clauses@
                &&& b.order_by@ == self.order_by@
                &&& b.limit == self.limit
                &&& b.starting_data.0@ == self.starting_data.0@
            },
    {
        let mut this = self;
        let table_identifier = table_identifier_from_client(
            &this.client.0,
            this.schema.table_name.as_str(),
        );
        this.add_params_for_table_query_fields();
        let fields = this.get_fields_string();
        let values = this.get_values_params_string();
        let mut query = String::from_str("insert into ");
        query.append(table_identifier.as_str());
        query.append(" (");
        query.append(fields.as_str());
        query.append(") values(");
        query.append(values.as_str());
        query.append(")");
        Ok(
            QueryBuilder {
                schema: this.schema,
                client: this.client,
                query,
                params: this.params,
                where_clauses: this.where_clauses,
                order_by: this.order_by,
                limit: this.limit,
                starting_data: this.starting_data,
                query_type: PhantomData,
                query_built: PhantomData,
            },
        )
    }
}

impl QueryBuilder<QueryTypeUpdate, HasClient, QueryWasNotBuilt, HasStartingData> {
    /// Emits the UPDATE:
    /// `update <identifier> set <assignments> <where>`.
    ///
    /// Without explicit conditions, the condition that the primary-key
    /// column equals the starting record's key — under the parameter
    /// `__PARAM_<pk column>` — is appended first. One parameter per
    /// non-null field of the record is then folded into the parameter
    /// list; columns without a parameter are set to the literal `NULL`.
    pub fn build_query(self) -> (r: Result<
        QueryBuilder<QueryTypeUpdate, HasClient, QueryWasBuilt, HasStartingData>,
        BigqueryError,
    >)
        requires
            self.starting_data.0@.wf(),
            self.starting_data.0@.schema == self.schema@,
        ensures
            r matches Ok(b) && {
                let s = self.schema@;
                let pk = s.fields[s.pk_index];
                let pkv = self.starting_data.0@.values[s.pk_index];
                let wheres1 = if self.where_clauses@.len() == 0 {
                    seq_views(self.where_clauses@).push(
                        if pkv is Null {
                            spec_where_null_fragment(pk.db_name)
                        } else {
                            spec_where_eq_fragment(pk.db_name, spec_param_name_of(pk.db_name))
                        },
                    )
                } else {
                    seq_views(self.where_clauses@)
                };
                let params1 = if self.where_clauses@.len() == 0 && !(pkv is Null) {
                    spec_params(self.params@).push(spec_param_for_field(pk, pkv)->Some_0)
                } else {
                    spec_params(self.params@)
                };
                let folded = spec_folded_params(params1, s.fields, self.starting_data.0@.values);
                &&& spec_params(b.params@) == folded
                &&& seq_views(b.where_clauses@) == wheres1
                &&& b.query@ == "update "@ + spec_table_identifier(self.client.0@, s.table_name)
                    + " set "@ + spec_join(spec_update_items(s.query_fields(true), folded), ", "@)
                    + " "@ + spec_where_string(wheres1)
                &&& b.schema@ == self.schema@
                &&& b.client == self.client
                &&& b.order_by@ == self.order_by@
                &&& b.limit == self.limit
                &&& b.starting_data.0@ == self.starting_data.0@
            },
    {
        proof {
            crate::schema::lemma_find_pk(self.schema@);
        }
        let table_identifier = table_identifier_from_client(
            &self.client.0,
            self.schema.table_name.as_str(),
        );
        let mut this = self;
        if this.where_clauses.len() == 0 {
            let pk_name = this.schema.get_pk_field_name();
            this = match this.add_field_where(pk_name.as_str()) {
                Ok(b) => b,
                Err(e) => {
                    proof {
                        assert(false);
                    }
                    return Err(e);
                },
            };
        }
        let where_clause = this.build_where_string();
        this.add_params_for_table_query_fields();
        let fields_str = this.build_update_fields_string();
        let mut query = String::from_str("update ");
        query.append(table_identifier.as_str());
        query.append(" set ");
        query.append(fields_str.as_str());
        query.append(" ");
        query.append(where_clause.as_str());
        proof {
            reveal_strlit(" ");
            assert(" "@ =~= seq![' ']);
        }
        Ok(
            QueryBuilder {
                schema: this.schema,
                client: this.client,
                query,
                params: this.params,
                where_clauses: this.where_clauses,
                order_by: this.order_by,
                limit: this.limit,
                starting_data: this.starting_data,
                query_type: PhantomData,
                query_built: PhantomData,
            },
        )
    }
}

impl QueryBuilder<QueryTypeDelete, HasClient, QueryWasNotBuilt, HasStartingData> {
    /// Emits the DELETE: `DELETE FROM <identifier> <where>`, after
    /// appending the condition that the primary-key column equals the
    /// starting record's key — under the parameter `__PARAM_<pk column>` —
    /// to whatever conditions were added explicitly.
    pub fn build_query(self) -> (r: Result<
        QueryBuilder<QueryTypeDelete, HasClient, QueryWasBuilt, HasStartingData>,
        BigqueryError,
    >)
        requires
            self.starting_data.0@.wf(),
            self.starting_data.0@.schema == self.schema@,
        ensures
            r matches Ok(b) && {
                let s = self.schema@;
                let pk = s.fields[s.pk_index];
                let pkv = self.starting_data.0@.values[s.pk_index];
                let wheres1 = seq_views(self.where_clauses@).push(
                    if pkv is Null {
                        spec_where_null_fragment(pk.db_name)
                    } else {
                        spec_where_eq_fragment(pk.db_name, spec_param_name_of(pk.db_name))
                    },
                );
                let params1 = if pkv is Null {
                    spec_params(self.params@)
                } else {
                    spec_params(self.params@).push(spec_param_for_field(pk, pkv)->Some_0)
                };
                &&& spec_params(b.params@) == params1
                &&& seq_views(b.where_clauses@) == wheres1
                &&& b.query@ == "DELETE FROM "@ + spec_table_identifier(
                    self.client.0@,
                    s.table_name,
                ) + " "@ + spec_where_string(wheres1)
                &&& b.schema@ == self.schema@
                &&& b.client == self.client
                &&& b.order_by@ == self.order_by@
                &&& b.limit == self.limit
                &&& b.starting_data.0@ == self.starting_data.0@
            },
    {
        proof {
            crate::schema::lemma_find_pk(self.schema@);
        }
        let table_identifier = table_identifier_from_client(
            &self.client.0,
            self.schema.table_name.as_str(),
        );
        let pk_name = self.schema.get_pk_field_name();
        let this = match self.add_field_where(pk_name.as_str()) {
            Ok(b) => b,
            Err(e) => {
                proof {
                    assert(false);
                }
                return Err(e);
            },
        };
        let where_clause = this.build_where_string();
        let mut query = String::from_str("DELETE FROM ");
        query.append(table_identifier.as_str());
        query.append(" ");
        query.append(where_clause.as_str());
        proof {
            reveal_strlit(" ");
            assert(" "@ =~= seq![' ']);
        }
        Ok(
            QueryBuilder {
                schema: this.schema,
                client: this.client,
                query,
                params: this.params,
                where_clauses: this.where_clauses,
                order_by: this.order_by,
                limit: this.limit,
                starting_data: this.starting_data,
                query_type: PhantomData,
                query_built: PhantomData,
            },
        )
    }
}

impl<StartingData> QueryBuilder<QueryTypeSelect, HasClient, QueryWasNotBuilt, StartingData> {
    /// Emits the SELECT:
    /// `SELECT <columns> FROM <identifier><where><order by><limit>`,
    /// the columns in the deterministic schema order — the same order row
    /// decoding uses. Refused only when an `ORDER BY` key resolves to no
    /// field.
    pub fn build_query(self) -> (r: Result<
        QueryBuilder<QueryTypeSelect, HasClient, QueryWasBuilt, StartingData>,
        BigqueryError,
    >)
        ensures
            match r {
                Ok(b) => {
                    &&& spec_order_items(self.schema@, spec_orders(self.order_by@)) matches Some(
                        items,
                    )
                    &&& b.query@ == "SELECT "@ + spec_fields_string(self.schema@) + " FROM "@
                        + spec_table_identifier(self.client.0@, self.schema@.table_name)
                        + spec_where_string(seq_views(self.where_clauses@)) + spec_order_string(
                        spec_order_items(self.schema@, spec_orders(self.order_by@))->Some_0,
                    ) + spec_limit_string(self.limit)
                    &&& b.schema@ == self.schema@
                    &&& b.client == self.client
                    &&& b.params@ == self.params@
                    &&& b.where_clauses@ == self.where_clauses@
                    &&& b.order_by@ == self.order_by@
                    &&& b.limit == self.limit
                    &&& b.starting_data == self.starting_data
                },
                Err(_) => spec_order_items(self.schema@, spec_orders(self.order_by@)) is None,
            },
    {
        let table_identifier = table_identifier_from_client(
            &self.client.0,
            self.schema.table_name.as_str(),
        );
        let fields_str = self.get_fields_string();
        let where_clause = self.build_where_string();
        let order_by_clause = match self.build_order_by_string() {
            Ok(s) => s,
            Err(e) => {
                return Err(e);
            },
        };
        let limit_clause = self.build_limit_string();
        let mut query = String::from_str("SELECT ");
        query.append(fields_str.as_str());
        query.append(" FROM ");
        query.append(table_identifier.as_str());
        query.append(where_clause.as_str());
        query.append(order_by_clause.as_str());
        query.append(limit_clause.as_str());
        Ok(
            QueryBuilder {
                schema: self.schema,
                client: self.client,
                query,
                params: self.params,
                where_clauses: self.where_clauses,
                order_by: self.order_by,
                limit: self.limit,
                starting_data: self.starting_data,
                query_type: PhantomData,
                query_built: PhantomData,
            },
        )
    }
}

impl<QueryType, Client, StartingData> QueryBuilder<QueryType, Client, QueryWasBuilt, StartingData> {
    /// Returns to the not-built state, keeping all accumulated state.
    pub fn un_build(self) -> (r: QueryBuilder<QueryType, Client, QueryWasNotBuilt, StartingData>)
        ensures
            r.schema@ == self.schema@,
            r.client == self.client,
            r.query@ == self.query@,
            r.params@ == self.params@,
            r.where_clauses@ == self.where_clauses@,
            r.order_by@ == self.order_by@,
            r.limit == self.limit,
            r.starting_data == self.starting_data,
    {
        QueryBuilder {
            schema: self.schema,
            client: self.client,
            query: self.query,
            params: self.params,
            where_clauses: self.where_clauses,
            order_by: self.order_by,
            limit: self.limit,
            starting_data: self.starting_data,
            query_type: PhantomData,
            query_built: PhantomData,
        }
    }

    /// The emitted SQL text.
    pub fn get_query_string(&self) -> (r: &str)
        ensures
            r@ == self.query@,
    {
        self.query.as_str()
    }
}

// ---------------------------------------------------------------------------
// Running a built statement
// ---------------------------------------------------------------------------

/// The request a run ships: the SQL text, the parameters (absent when none
/// were recorded), and the standard-SQL flag, always off legacy SQL.
#[derive(Debug)]
pub struct QueryRequestData {
    pub query: String,
    pub query_parameters: Option<Vec<QueryParam>>,
    pub use_legacy_sql: bool,
}

/// Copies a parameter list.
fn clone_params(ps: &Vec<QueryParam>) -> (r: Vec<QueryParam>)
    ensures
        spec_params(r@) == spec_params(ps@),
{
    let mut r: Vec<QueryParam> = Vec::new();
    let mut i: usize = 0;
    while i < ps.len()
        invariant
            i <= ps@.len(),
            r@.len() == i,
            forall|k: int| 0 <= k < i ==> (#[trigger] r@[k])@ == ps@[k]@,
        decreases ps@.len() - i,
    {
        r.push(ps[i].clone());
        i = i + 1;
    }
    proof {
        assert(spec_params(r@) =~= spec_params(ps@));
    }
    r
}

/// The views of a row matrix.
pub open spec fn spec_rows_view(rows: Seq<Vec<JsonValue>>) -> Seq<Seq<JsonVal>> {
    rows.map_values(|r: Vec<crate::json::JsonValue>| r@.map_values(|v: crate::json::JsonValue| v@))
}

/// Decodes each row of a matrix, or nothing when one of them is refused.
pub open spec fn spec_decode_rows(s: SpecSchema, rws: Seq<Seq<JsonVal>>) -> Option<
    Seq<Seq<JsonVal>>,
>
    decreases rws.len(),
{
    if rws.len() == 0 {
        Some(Seq::empty())
    } else {
        match crate::record::spec_decode_fields(s.fields, rws[0]) {
            Some(vals) => match spec_decode_rows(s, rws.drop_first()) {
                Some(rest) => Some(seq![vals] + rest),
                None => None,
            },
            None => None,
        }
    }
}

/// Copies one row of cells.
fn clone_cells(row: &Vec<crate::json::JsonValue>) -> (r: Vec<crate::json::JsonValue>)
    ensures
        r@.map_values(|v: crate::json::JsonValue| v@) == row@.map_values(
            |v: crate::json::JsonValue| v@,
        ),
{
    let mut r: Vec<crate::json::JsonValue> = Vec::new();
    let mut i: usize = 0;
    while i < row.len()
        invariant
            i <= row@.len(),
            r@.len() == i,
            forall|k: int| 0 <= k < i ==> (#[trigger] r@[k])@ == row@[k]@,
        decreases row@.len() - i,
    {
        r.push(row[i].clone());
        i = i + 1;
    }
    proof {
        assert(r@.map_values(|v: crate::json::JsonValue| v@) =~= row@.map_values(
            |v: crate::json::JsonValue| v@,
        ));
    }
    r
}

/// Decodes a positional row matrix into records of the schema; `Ok`
/// exactly when every row decodes.
pub fn decode_rows(schema: &TableSchema, rows: &Vec<Vec<crate::json::JsonValue>>) -> (r: Result<
    Vec<Record>,
    crate::conversion::ConversionError,
>)
    requires
        schema@.wf(),
    ensures
        match r {
            Ok(recs) => {
                &&& spec_decode_rows(schema@, spec_rows_view(rows@)) matches Some(valss)
                &&& spec_decode_rows(schema@, spec_rows_view(rows@))->Some_0 == recs@.map_values(
                    |rec: Record| rec@.values,
                )
                &&& recs@.len() == spec_rows_view(rows@).len()
                &&& forall|k: int|
                    0 <= k < recs@.len() ==> (#[trigger] recs@[k])@.schema == schema@
                        && recs@[k]@.wf() && recs@[k]@.values == spec_decode_rows(
                        schema@,
                        spec_rows_view(rows@),
                    )->Some_0[k]
            },
            Err(_) => spec_decode_rows(schema@, spec_rows_view(rows@)) is None,
        },
{
    let ghost rws = spec_rows_view(rows@);
    let n = rows.len();
    let mut recs: Vec<Record> = Vec::new();
    let mut i: usize = 0;
    proof {
        assert(rws.skip(0) =~= rws);
    }
    while i < n
        invariant
            schema@.wf(),
            n == rows@.len(),
            rws == spec_rows_view(rows@),
            n == rws.len(),
            i <= n,
            recs@.len() == i,
            forall|k: int|
                0 <= k < i ==> (#[trigger] recs@[k])@.schema == schema@ && recs@[k]@.wf(),
            spec_decode_rows(schema@, rws) == (match spec_decode_rows(
                schema@,
                rws.skip(i as int),
            ) {
                Some(rest) => Some(recs@.map_values(|rec: Record| rec@.values) + rest),
                None => None::<Seq<Seq<JsonVal>>>,
            }),
        decreases n - i,
    {
        proof {
            assert(rws.skip(i as int)[0] == rws[i as int]);
            assert(rws[i as int] == rows@[i as int]@.map_values(|v: crate::json::JsonValue| v@));
            assert(rws.skip(i as int).drop_first() =~= rws.skip(i as int + 1));
        }
        let cells = clone_cells(&rows[i]);
        let ghost before = recs@.map_values(|rec: Record| rec@.values);
        match Record::new_from_query_result_row(schema.clone(), cells) {
            Ok(rec) => {
                recs.push(rec);
                proof {
                    assert(recs@.map_values(|rec: Record| rec@.values) =~= before.push(
                        recs@.last()@.values,
                    ));
                    match spec_decode_rows(schema@, rws.skip(i as int + 1)) {
                        Some(rest) => {
                            assert(before.push(recs@.last()@.values) + rest =~= before + (seq![
                                recs@.last()@.values,
                            ] + rest));
                        },
                        None => {
                        },
                    }
                }
            },
            Err(e) => {
                return Err(e);
            },
        }
        i = i + 1;
    }
    proof {
        assert(rws.skip(n as int).len() == 0);
        assert(recs@.map_values(|rec: Record| rec@.values) + Seq::<Seq<JsonVal>>::empty()
            =~= recs@.map_values(|rec: Record| rec@.values));
    }
    Ok(recs)
}

/// Interprets the response of a run: decoded rows for a SELECT whose
/// response carried a row matrix, the bare success otherwise; refused when
/// a row of a SELECT's matrix does not decode.
pub fn interpret_query_response(
    schema: &TableSchema,
    is_select: bool,
    rows: &Option<Vec<Vec<crate::json::JsonValue>>>,
) -> (r: Result<QueryResultType<Record>, crate::conversion::ConversionError>)
    requires
        schema@.wf(),
    ensures
        match r {
            Ok(qr) => match qr {
                QueryResultType::WithRowData(recs) => {
                    &&& is_select
                    &&& rows matches Some(rs)
                    &&& spec_decode_rows(schema@, spec_rows_view(rs@)) matches Some(valss)
                    &&& recs@.len() == valss.len()
                    &&& forall|k: int|
                        0 <= k < recs@.len() ==> (#[trigger] recs@[k])@.schema == schema@
                            && recs@[k]@.wf() && recs@[k]@.values == spec_decode_rows(
                            schema@,
                            spec_rows_view(rows->Some_0@),
                        )->Some_0[k]
                },
                QueryResultType::WithoutRowData(res) => (!is_select || rows is None)
                    && res is Ok,
            },
            Err(_) => is_select && (rows matches Some(rs) && spec_decode_rows(
                schema@,
                spec_rows_view(rs@),
            ) is None),
        },
{
    if is_select {
        match rows {
            Some(rs) => {
                match decode_rows(schema, rs) {
                    Ok(recs) => Ok(QueryResultType::WithRowData(recs)),
                    Err(e) => Err(e),
                }
            },
            None => Ok(QueryResultType::WithoutRowData(Ok(()))),
        }
    } else {
        Ok(QueryResultType::WithoutRowData(Ok(())))
    }
}

/// The only accepted HTTP status of the query endpoint.
pub fn check_status(status: u16) -> (r: Result<(), BigqueryError>)
    ensures
        match r {
            Ok(_) => status == 200,
            Err(e) => status != 200 && e.message@ == "Wrong status code returned! ("@ + spec_dec(
                status as nat,
            ) + ")"@,
        },
{
    if status == 200 {
        Ok(())
    } else {
        let mut m = String::from_str("Wrong status code returned! (");
        let num = crate::textfmt::u64_to_string(status as u64);
        m.append(num.as_str());
        m.append(")");
        Err(BigqueryError { message: m })
    }
}

impl<QueryType: HasQueryType, StartingData> QueryBuilder<
    QueryType,
    HasClient,
    QueryWasBuilt,
    StartingData,
> {
    /// The request a run of this statement ships: the built SQL text, the
    /// recorded parameters (absent when none), standard SQL.
    pub fn build_request(&self) -> (r: QueryRequestData)
        ensures
            r.query@ == self.query@,
            r.use_legacy_sql == false,
            match r.query_parameters {
                Some(ps) => self.params@.len() > 0 && spec_params(ps@) == spec_params(
                    self.params@,
                ),
                None => self.params@.len() == 0,
            },
    {
        let query_parameters = if self.params.len() == 0 {
            None
        } else {
            Some(clone_params(&self.params))
        };
        QueryRequestData { query: self.query.clone(), query_parameters, use_legacy_sql: false }
    }

    /// Classifies and decodes what came back from the transport: a SELECT
    /// whose response carried a row matrix yields the decoded rows, any
    /// other outcome the bare success.
    pub fn interpret_response(&self, rows: &Option<Vec<Vec<crate::json::JsonValue>>>) -> (r: Result<
        QueryResultType<Record>,
        crate::conversion::ConversionError,
    >)
        requires
            self.schema@.wf(),
        ensures
            match r {
                Ok(qr) => match qr {
                    QueryResultType::WithRowData(recs) => {
                        &&& QueryType::spec_is_select()
                        &&& rows matches Some(rs)
                        &&& spec_decode_rows(self.schema@, spec_rows_view(rows->Some_0@)) matches Some(
                            valss,
                        )
                        &&& recs@.len() == spec_decode_rows(
                            self.schema@,
                            spec_rows_view(rows->Some_0@),
                        )->Some_0.len()
                        &&& forall|k: int|
                            0 <= k < recs@.len() ==> (#[trigger] recs@[k])@.schema == self.schema@
                                && recs@[k]@.wf() && recs@[k]@.values == spec_decode_rows(
                                self.schema@,
                                spec_rows_view(rows->Some_0@),
                            )->Some_0[k]
                    },
                    QueryResultType::WithoutRowData(res) => (!QueryType::spec_is_select()
                        || rows is None) && res is Ok,
                },
                Err(_) => QueryType::spec_is_select() && (rows matches Some(rs)
                    && spec_decode_rows(self.schema@, spec_rows_view(rs@)) is None),
            },
    {
        interpret_query_response(&self.schema, QueryType::kind_is_select(), rows)
    }
}

} // verus!
