//! Records as the verified core holds them: the schema plus one stored wire
//! value per field, each kept in the canonical form its column type decodes
//! to. Query parameters are built from these stored values.
use vstd::prelude::*;

use crate::conversion::{
    convert_value_to_string, lemma_bool_literals_distinct, spec_bool_from_param,
    spec_int64_from_param, spec_value_to_string, ConversionError, ConvertBigQueryParams,
};
use crate::datetime::{
    datetime_to_string, parse_datetime, spec_datetime_string, spec_parse_datetime, Datetime,
};
use crate::json::{JsonVal, JsonValue};
use crate::query_builder::BigqueryError;
use crate::schema::{
    active_pred, bq_type_text, field_active, spec_bq_type_text, BqType, FieldDescriptor, SpecField,
    SpecSchema, TableSchema,
};

verus! {

// ---------------------------------------------------------------------------
// Query parameters
// ---------------------------------------------------------------------------

/// Mathematical form of a query parameter.
pub ghost struct SpecParam {
    pub name: Seq<char>,
    pub param_type: Seq<char>,
    pub value: Option<Seq<char>>,
}

/// A named, typed parameter sent beside the SQL text.
#[derive(Debug)]
pub struct QueryParam {
    pub name: String,
    pub param_type: String,
    pub value: Option<String>,
}

impl View for QueryParam {
    type V = SpecParam;

    open spec fn view(&self) -> SpecParam {
        SpecParam {
            name: self.name@,
            param_type: self.param_type@,
            value: match self.value {
                Some(ref s) => Some(s@),
                None => None,
            },
        }
    }
}

impl Clone for QueryParam {
    fn clone(&self) -> (r: Self)
        ensures
            r@ == self@,
    {
        let value = match &self.value {
            Some(s) => Some(s.clone()),
            None => None,
        };
        let r = QueryParam { name: self.name.clone(), param_type: self.param_type.clone(), value };
        proof {
            assert(r@ =~= self@);
        }
        r
    }
}

/// The parameter name of a column: `__PARAM_` followed by the column name.
pub open spec fn spec_param_name_of(db_name: Seq<char>) -> Seq<char> {
    "__PARAM_"@ + db_name
}

/// Renders the parameter name of a column.
pub fn param_name_of(db_name: &str) -> (r: String)
    ensures
        r@ == spec_param_name_of(db_name@),
{
    let mut s = String::from_str("__PARAM_");
    s.append(db_name);
    s
}

/// Decodes one positional row against the fields: active fields take the
/// next cell (the JSON null once the cells run out) through their decoder,
/// other fields take the JSON null, and leftover cells refuse the row.
pub open spec fn spec_decode_fields(fs: Seq<SpecField>, cells: Seq<JsonVal>) -> Option<
    Seq<JsonVal>,
>
    decreases fs.len(),
{
    if fs.len() == 0 {
        if cells.len() == 0 {
            Some(Seq::empty())
        } else {
            None
        }
    } else if !field_active(fs[0]) {
        match spec_decode_fields(fs.drop_first(), cells) {
            Some(rest) => Some(seq![JsonVal::Null] + rest),
            None => None,
        }
    } else {
        let cell = if cells.len() > 0 {
            cells[0]
        } else {
            JsonVal::Null
        };
        let rest_cells = if cells.len() > 0 {
            cells.drop_first()
        } else {
            cells
        };
        match spec_decode_field(fs[0], cell) {
            Some(w) => match spec_decode_fields(fs.drop_first(), rest_cells) {
                Some(rest) => Some(seq![w] + rest),
                None => None,
            },
            None => None,
        }
    }
}

/// The cell a decoder reads at position `k`: the JSON null once the cells
/// run out.
pub open spec fn spec_cell_at(cells: Seq<JsonVal>, k: int) -> JsonVal {
    if 0 <= k < cells.len() {
        cells[k]
    } else {
        JsonVal::Null
    }
}

/// The position of field `i`'s column in the emitted column list: the
/// number of active fields before it.
pub open spec fn active_rank(fs: Seq<SpecField>, i: int) -> int {
    fs.take(i).filter(active_pred()).len() as int
}

/// Stepping past the head shifts ranks by the head's own contribution.
proof fn lemma_rank_shift(fs: Seq<SpecField>, i: int)
    requires
        1 <= i <= fs.len(),
    ensures
        active_rank(fs, i) == (if field_active(fs[0]) {
            1int
        } else {
            0int
        }) + active_rank(fs.drop_first(), i - 1),
{
    assert(fs.take(i) =~= seq![fs[0]] + fs.drop_first().take(i - 1));
    Seq::filter_distributes_over_add(seq![fs[0]], fs.drop_first().take(i - 1), active_pred());
    reveal(Seq::filter);
    assert(seq![fs[0]].drop_last() =~= Seq::<SpecField>::empty());
    assert(Seq::<SpecField>::empty().filter(active_pred()) =~= Seq::<SpecField>::empty());
    assert(active_pred()(fs[0]) == field_active(fs[0]));
    if field_active(fs[0]) {
        assert(Seq::<SpecField>::empty().push(fs[0]) =~= seq![fs[0]]);
        assert(seq![fs[0]].filter(active_pred()) =~= seq![fs[0]]);
    } else {
        assert(seq![fs[0]].filter(active_pred()) =~= Seq::<SpecField>::empty());
    }
}

/// An active field's column stands at its rank in the filtered field list.
pub proof fn lemma_filter_rank(fs: Seq<SpecField>, i: int)
    requires
        0 <= i < fs.len(),
        field_active(fs[i]),
    ensures
        0 <= active_rank(fs, i) < fs.filter(active_pred()).len(),
        fs.filter(active_pred())[active_rank(fs, i)] == fs[i],
{
    broadcast use vstd::seq_lib::group_filter_ensures;

    assert(fs =~= fs.take(i + 1) + fs.skip(i + 1));
    assert(fs.take(i + 1) =~= fs.take(i).push(fs[i]));
    fs.take(i).lemma_filter_push(fs[i], active_pred());
    Seq::filter_distributes_over_add(fs.take(i + 1), fs.skip(i + 1), active_pred());
    let k = active_rank(fs, i);
    assert(fs.take(i + 1).filter(active_pred()) == fs.take(i).filter(active_pred()).push(fs[i]));
    assert(fs.filter(active_pred()) == fs.take(i + 1).filter(active_pred()) + fs.skip(
        i + 1,
    ).filter(active_pred()));
    assert(fs.take(i + 1).filter(active_pred())[k] == fs[i]);
    assert(fs.filter(active_pred())[k] == fs.take(i + 1).filter(active_pred())[k]);
}

/// Where each decoded value comes from: the slot of field `i` holds the
/// decoding of the cell standing at that field's rank — the position its
/// column has in the emitted column list — and inactive slots hold the
/// JSON null.
pub proof fn lemma_decode_positions(fs: Seq<SpecField>, cells: Seq<JsonVal>)
    requires
        spec_decode_fields(fs, cells) is Some,
    ensures
        ({
            let vals = spec_decode_fields(fs, cells)->Some_0;
            &&& vals.len() == fs.len()
            &&& forall|i: int|
                0 <= i < fs.len() && field_active(#[trigger] fs[i]) ==> spec_decode_field(
                    fs[i],
                    spec_cell_at(cells, active_rank(fs, i)),
                ) == Some(vals[i])
            &&& forall|i: int|
                0 <= i < fs.len() && !field_active(#[trigger] fs[i]) ==> vals[i] is Null
        }),
    decreases fs.len(),
{
    let vals = spec_decode_fields(fs, cells)->Some_0;
    if fs.len() == 0 {
    } else if !field_active(fs[0]) {
        let rest = spec_decode_fields(fs.drop_first(), cells)->Some_0;
        lemma_decode_positions(fs.drop_first(), cells);
        assert(vals == seq![JsonVal::Null] + rest);
        assert forall|i: int| 0 <= i < fs.len() && field_active(#[trigger] fs[i]) implies
            spec_decode_field(fs[i], spec_cell_at(cells, active_rank(fs, i))) == Some(
            vals[i],
        ) by {
            lemma_rank_shift(fs, i);
            assert(fs[i] == fs.drop_first()[i - 1]);
            assert(vals[i] == rest[i - 1]);
        }
        assert forall|i: int| 0 <= i < fs.len() && !field_active(#[trigger] fs[i]) implies vals[i]
            is Null by {
            if i > 0 {
                assert(fs[i] == fs.drop_first()[i - 1]);
                assert(vals[i] == rest[i - 1]);
            }
        }
    } else {
        let cell = if cells.len() > 0 {
            cells[0]
        } else {
            JsonVal::Null
        };
        let rest_cells = if cells.len() > 0 {
            cells.drop_first()
        } else {
            cells
        };
        let w = spec_decode_field(fs[0], cell)->Some_0;
        let rest = spec_decode_fields(fs.drop_first(), rest_cells)->Some_0;
        lemma_decode_positions(fs.drop_first(), rest_cells);
        assert(vals == seq![w] + rest);
        assert(active_rank(fs, 0) == 0) by {
            assert(fs.take(0).filter(active_pred()) =~= Seq::<SpecField>::empty());
        }
        assert(spec_cell_at(cells, 0) == cell);
        assert forall|i: int| 1 <= i < fs.len() && field_active(#[trigger] fs[i]) implies
            spec_decode_field(fs[i], spec_cell_at(cells, active_rank(fs, i))) == Some(
            vals[i],
        ) by {
            lemma_rank_shift(fs, i);
            assert(fs[i] == fs.drop_first()[i - 1]);
            assert(vals[i] == rest[i - 1]);
            let k = active_rank(fs.drop_first(), i - 1);
            assert(active_rank(fs, i) == 1 + k);
            assert(spec_cell_at(cells, 1 + k) == spec_cell_at(rest_cells, k));
        }
        assert forall|i: int| 0 <= i < fs.len() && !field_active(#[trigger] fs[i]) implies vals[i]
            is Null by {
            assert(i > 0);
            assert(fs[i] == fs.drop_first()[i - 1]);
            assert(vals[i] == rest[i - 1]);
        }
    }
}

/// The field/value pairs of the active fields, in schema order.
pub open spec fn active_pairs(fs: Seq<SpecField>, vals: Seq<JsonVal>) -> Seq<(SpecField, JsonVal)>
    decreases fs.len(),
{
    if fs.len() == 0 || vals.len() == 0 {
        Seq::empty()
    } else {
        let rest = active_pairs(fs.drop_last(), vals.drop_last());
        if field_active(fs.last()) {
            rest.push((fs.last(), vals.last()))
        } else {
            rest
        }
    }
}

/// The stored values of the active fields, in schema order.
pub open spec fn spec_active_values(r: SpecRecord) -> Seq<JsonVal> {
    active_pairs(r.schema.fields, r.values).map_values(|p: (SpecField, JsonVal)| p.1)
}

/// `active_pairs` grows by one pair exactly when the appended field is
/// active.
pub proof fn lemma_active_pairs_push(
    fs: Seq<SpecField>,
    vals: Seq<JsonVal>,
    f: SpecField,
    v: JsonVal,
)
    requires
        fs.len() == vals.len(),
    ensures
        active_pairs(fs.push(f), vals.push(v)) == (if field_active(f) {
            active_pairs(fs, vals).push((f, v))
        } else {
            active_pairs(fs, vals)
        }),
{
    assert(fs.push(f).drop_last() =~= fs);
    assert(vals.push(v).drop_last() =~= vals);
    assert(fs.push(f).last() == f);
    assert(vals.push(v).last() == v);
}

/// The first components of `active_pairs` are the active fields.
pub proof fn lemma_active_pairs_parts(fs: Seq<SpecField>, vals: Seq<JsonVal>)
    requires
        fs.len() == vals.len(),
    ensures
        active_pairs(fs, vals).len() == fs.filter(active_pred()).len(),
        forall|k: int|
            0 <= k < active_pairs(fs, vals).len() ==> #[trigger] active_pairs(fs, vals)[k].0
                == fs.filter(active_pred())[k],
    decreases fs.len(),
{
    reveal(Seq::filter);
    if fs.len() > 0 {
        lemma_active_pairs_parts(fs.drop_last(), vals.drop_last());
    }
}

/// The parameter a field contributes: none when its stored value is null,
/// else `__PARAM_<column>` typed by the column and holding the value's text.
pub open spec fn spec_param_for_field(f: SpecField, v: JsonVal) -> Option<SpecParam> {
    if v is Null {
        None
    } else {
        Some(
            SpecParam {
                name: spec_param_name_of(f.db_name),
                param_type: spec_bq_type_text(f.field_type),
                value: spec_value_to_string(v),
            },
        )
    }
}

/// Builds the parameter a field contributes from its stored value.
pub fn make_field_param(f: &FieldDescriptor, v: &JsonValue) -> (r: Option<QueryParam>)
    ensures
        match r {
            Some(p) => spec_param_for_field(f@, v@) == Some(p@),
            None => spec_param_for_field(f@, v@) is None,
        },
{
    match v {
        JsonValue::Null => None,
        _ => {
            let text = match convert_value_to_string(v.clone()) {
                Ok(t) => t,
                Err(_) => {
                    proof {
                        assert(false);
                    }
                    String::new()
                },
            };
            let p = QueryParam {
                name: param_name_of(f.db_name.as_str()),
                param_type: bq_type_text(f.field_type),
                value: Some(text),
            };
            proof {
                assert(spec_param_for_field(f@, v@) == Some(p@));
            }
            Some(p)
        },
    }
}

/// Builds a parameter named `param_name` from a host value: none when the
/// value encodes to the JSON null.
pub fn get_parameter<T: crate::conversion::BigDataValueType>(value: &T, param_name: &String) -> (r:
    Option<QueryParam>)
    requires
        value.param_wf(),
    ensures
        match r {
            Some(p) => !(value.spec_to_param() is Null) && p@ == (SpecParam {
                name: param_name@,
                param_type: T::spec_bigquery_type(),
                value: spec_value_to_string(value.spec_to_param()),
            }),
            None => value.spec_to_param() is Null,
        },
{
    let jv = value.to_param();
    let ghost gv = jv@;
    match convert_value_to_string(jv) {
        Ok(text) => {
            let p = QueryParam {
                name: param_name.clone(),
                param_type: T::convert_type_to_bigquery_type(),
                value: Some(text),
            };
            proof {
                assert(p@ =~= SpecParam {
                    name: param_name@,
                    param_type: T::spec_bigquery_type(),
                    value: spec_value_to_string(value.spec_to_param()),
                });
            }
            Some(p)
        },
        Err(_) => None,
    }
}

// ---------------------------------------------------------------------------
// Decoding one field
// ---------------------------------------------------------------------------

/// The stored form of a wire value under a field's column type, or nothing
/// when the wire value cannot be read for that field: integers are parsed
/// and range checked, boolean spellings are folded to `TRUE`/`FALSE`, and
/// timestamps to `YYYY-MM-DD HH:MM:SS`.
pub open spec fn spec_decode_field(f: SpecField, v: JsonVal) -> Option<JsonVal> {
    if v is Null {
        if f.nullable {
            Some(JsonVal::Null)
        } else {
            None
        }
    } else {
        match f.field_type {
            BqType::Int64 => match spec_int64_from_param(v) {
                Some(n) => if i64::MIN <= n <= i64::MAX {
                    Some(JsonVal::Integer(n))
                } else {
                    None
                },
                None => None,
            },
            BqType::Int32 => match spec_int64_from_param(v) {
                Some(n) => if i32::MIN <= n <= i32::MAX {
                    Some(JsonVal::Integer(n))
                } else {
                    None
                },
                None => None,
            },
            BqType::Text => match v {
                JsonVal::Text(_) => Some(v),
                _ => None,
            },
            BqType::Bool => match spec_bool_from_param(v) {
                Some(b) => Some(
                    JsonVal::Text(
                        if b {
                            "TRUE"@
                        } else {
                            "FALSE"@
                        },
                    ),
                ),
                None => None,
            },
            BqType::Datetime => match v {
                JsonVal::Text(s) => match spec_parse_datetime(s) {
                    Some(dt) => Some(JsonVal::Text(spec_datetime_string(dt))),
                    None => None,
                },
                _ => None,
            },
        }
    }
}

/// A stored value fits its field when the field's decoder maps it to
/// itself; inactive fields hold the JSON null.
pub open spec fn value_fits(f: SpecField, v: JsonVal) -> bool {
    if field_active(f) {
        spec_decode_field(f, v) == Some(v)
    } else {
        v is Null
    }
}

/// Whatever a field's decoder produces, it fits the field.
pub proof fn lemma_decode_fits(f: SpecField, v: JsonVal)
    requires
        field_active(f),
        spec_decode_field(f, v) is Some,
    ensures
        ({
            let w = spec_decode_field(f, v)->Some_0;
            value_fits(f, w)
        }),
{
    let w = spec_decode_field(f, v)->Some_0;
    match f.field_type {
        BqType::Bool => {
            if !(v is Null) {
                lemma_bool_literals_distinct();
                assert("TRUE"@ == "TRUE"@);
            }
        },
        BqType::Datetime => {
            if !(v is Null) {
                match v {
                    JsonVal::Text(s) => {
                        let dt = spec_parse_datetime(s)->Some_0;
                        assert(dt.wf()) by {
                            crate::datetime::lemma_parse_datetime_wf(s);
                        }
                        crate::datetime::lemma_datetime_string_round_trip(dt);
                    },
                    _ => {
                    },
                }
            }
        },
        _ => {
        },
    }
}

/// Reads a wire value for a field, returning the stored form; `Ok` exactly
/// when `spec_decode_field` accepts the value.
pub fn decode_field(f: &FieldDescriptor, v: &JsonValue) -> (r: Result<JsonValue, ConversionError>)
    ensures
        match r {
            Ok(w) => spec_decode_field(f@, v@) == Some(w@),
            Err(_) => spec_decode_field(f@, v@) is None,
        },
{
    match v {
        JsonValue::Null => {
            if f.nullable {
                Ok(JsonValue::Null)
            } else {
                Err(ConversionError::new("a non-null value is required"))
            }
        },
        _ => {
            match f.field_type {
                BqType::Int64 => {
                    match i64::from_param(v) {
                        Ok(n) => Ok(JsonValue::Integer(n)),
                        Err(e) => Err(e),
                    }
                },
                BqType::Int32 => {
                    match i32::from_param(v) {
                        Ok(n) => Ok(JsonValue::Integer(n as i64)),
                        Err(e) => Err(e),
                    }
                },
                BqType::Text => {
                    match v {
                        JsonValue::Text(s) => Ok(JsonValue::Text(s.clone())),
                        _ => Err(ConversionError::new("expected a JSON string for STRING")),
                    }
                },
                BqType::Bool => {
                    match bool::from_param(v) {
                        Ok(b) => {
                            if b {
                                Ok(JsonValue::Text(String::from_str("TRUE")))
                            } else {
                                Ok(JsonValue::Text(String::from_str("FALSE")))
                            }
                        },
                        Err(e) => Err(e),
                    }
                },
                BqType::Datetime => {
                    match v {
                        JsonValue::Text(s) => {
                            match parse_datetime(s.as_str()) {
                                Ok(dt) => Ok(JsonValue::Text(datetime_to_string(&dt))),
                                Err(e) => Err(e),
                            }
                        },
                        _ => Err(ConversionError::new("expected a JSON string for DATETIME")),
                    }
                },
            }
        },
    }
}

impl TableSchema {
    /// The column name of the field locally named `field_name`; unknown
    /// names are refused.
    pub fn get_field_db_name(&self, field_name: &str) -> (r: Result<String, BigqueryError>)
        ensures
            match r {
                Ok(db) => self@.db_of_local(field_name@) == Some(db@),
                Err(e) => self@.db_of_local(field_name@) is None && e.message@ == "Field "@
                    + field_name@ + " not found."@,
            },
    {
        proof {
            crate::schema::lemma_find_local_props(self@.fields, field_name@);
        }
        match self.field_index(field_name) {
            Some(i) => {
                proof {
                    assert(self@.fields[i as int] == self.fields@[i as int]@);
                }
                Ok(self.fields[i].db_name.clone())
            },
            None => {
                let mut m = String::from_str("Field ");
                m.append(field_name);
                m.append(" not found.");
                Err(BigqueryError { message: m })
            },
        }
    }

    /// The parameter name of the field locally named `field_name`:
    /// `__PARAM_` followed by its column name.
    pub fn get_field_param_name(&self, field_name: &str) -> (r: Result<String, BigqueryError>)
        ensures
            match r {
                Ok(p) => self@.db_of_local(field_name@) matches Some(db) && p@
                    == spec_param_name_of(db),
                Err(_) => self@.db_of_local(field_name@) is None,
            },
    {
        match self.get_field_db_name(field_name) {
            Ok(db) => Ok(param_name_of(db.as_str())),
            Err(e) => Err(e),
        }
    }
}

// ---------------------------------------------------------------------------
// Records
// ---------------------------------------------------------------------------

/// Mathematical form of a record.
pub ghost struct SpecRecord {
    pub schema: SpecSchema,
    pub values: Seq<JsonVal>,
}

impl SpecRecord {
    /// Well-formed: the schema is, and one fitting stored value per field.
    pub open spec fn wf(&self) -> bool {
        &&& self.schema.wf()
        &&& self.values.len() == self.schema.fields.len()
        &&& forall|i: int|
            0 <= i < self.values.len() ==> value_fits(
                self.schema.fields[i],
                #[trigger] self.values[i],
            )
    }
}

/// One row of a table: the schema and a stored wire value per field. The
/// live transport handle a user record carries lives outside the verified
/// core; its field here holds the JSON null.
#[derive(Debug)]
pub struct Record {
    pub schema: TableSchema,
    pub values: Vec<JsonValue>,
}

impl View for Record {
    type V = SpecRecord;

    open spec fn view(&self) -> SpecRecord {
        SpecRecord { schema: self.schema@, values: self.values@.map_values(|v: JsonValue| v@) }
    }
}

impl Clone for Record {
    fn clone(&self) -> (r: Self)
        ensures
            r@ == self@,
    {
        let mut values: Vec<JsonValue> = Vec::new();
        let mut i: usize = 0;
        while i < self.values.len()
            invariant
                i <= self.values@.len(),
                values@.len() == i,
                forall|k: int| 0 <= k < i ==> (#[trigger] values@[k])@ == self.values@[k]@,
            decreases self.values@.len() - i,
        {
            values.push(self.values[i].clone());
            i = i + 1;
        }
        let r = Record { schema: self.schema.clone(), values };
        proof {
            assert(r@.values =~= self@.values);
            assert(r@ =~= self@);
        }
        r
    }
}

/// The default stored value of a field: null where allowed, else the
/// column type's zero.
pub open spec fn spec_default_value(f: SpecField) -> JsonVal {
    if !field_active(f) || f.nullable {
        JsonVal::Null
    } else {
        match f.field_type {
            BqType::Int32 => JsonVal::Integer(0),
            BqType::Int64 => JsonVal::Integer(0),
            BqType::Text => JsonVal::Text(Seq::empty()),
            BqType::Bool => JsonVal::Text("FALSE"@),
            BqType::Datetime => JsonVal::Text(
                spec_datetime_string(
                    Datetime { year: 0, month: 1, day: 1, hour: 0, minute: 0, second: 0 },
                ),
            ),
        }
    }
}

/// A default value fits its field.
proof fn lemma_default_fits(f: SpecField)
    ensures
        value_fits(f, spec_default_value(f)),
{
    if field_active(f) && !f.nullable {
        match f.field_type {
            BqType::Bool => {
                lemma_bool_literals_distinct();
            },
            BqType::Datetime => {
                let dt = Datetime { year: 0, month: 1, day: 1, hour: 0, minute: 0, second: 0 };
                assert(dt.wf());
                crate::datetime::lemma_datetime_string_round_trip(dt);
            },
            BqType::Text => {
                assert(spec_decode_field(f, JsonVal::Text(Seq::empty())) == Some(
                    JsonVal::Text(Seq::empty()),
                ));
            },
            _ => {
            },
        }
    }
}

impl Record {
    /// A fresh record of the schema, with every field at its default.
    pub fn new(schema: TableSchema) -> (r: Record)
        requires
            schema@.wf(),
        ensures
            r@.schema == schema@,
            r@.wf(),
            forall|i: int|
                0 <= i < r@.values.len() ==> r@.values[i] == spec_default_value(
                    #[trigger] r@.schema.fields[i],
                ),
    {
        let mut values: Vec<JsonValue> = Vec::new();
        let n = schema.fields.len();
        let mut i: usize = 0;
        while i < n
            invariant
                n == schema.fields@.len(),
                i <= n,
                values@.len() == i,
                forall|k: int|
                    0 <= k < i ==> (#[trigger] values@[k])@ == spec_default_value(
                        schema@.fields[k],
                    ),
            decreases n - i,
        {
            let f = &schema.fields[i];
            proof {
                assert(schema@.fields[i as int] == schema.fields@[i as int]@);
            }
            let v: JsonValue = if f.is_client || f.is_ignored || f.nullable {
                JsonValue::Null
            } else {
                match f.field_type {
                    BqType::Int32 => JsonValue::Integer(0),
                    BqType::Int64 => JsonValue::Integer(0),
                    BqType::Text => JsonValue::Text(String::new()),
                    BqType::Bool => JsonValue::Text(String::from_str("FALSE")),
                    BqType::Datetime => JsonValue::Text(
                        datetime_to_string(
                            &(Datetime { year: 0, month: 1, day: 1, hour: 0, minute: 0, second: 0 }),
                        ),
                    ),
                }
            };
            values.push(v);
            i = i + 1;
        }
        let r = Record { schema, values };
        proof {
            assert(r@.values =~= values@.map_values(|v: JsonValue| v@));
            assert forall|i2: int| 0 <= i2 < r@.values.len() implies value_fits(
                r@.schema.fields[i2],
                #[trigger] r@.values[i2],
            ) by {
                lemma_default_fits(r@.schema.fields[i2]);
            }
        }
        r
    }

    /// Sets the field locally named `field_name` from a wire value, routing
    /// it through the field's decoder; unknown names and unreadable values
    /// are refused, leaving the record unchanged.
    pub fn set_field_value(&mut self, field_name: &str, value: &JsonValue) -> (r: Result<
        (),
        ConversionError,
    >)
        requires
            old(self)@.wf(),
        ensures
            final(self)@.schema == old(self)@.schema,
            final(self)@.wf(),
            match r {
                Ok(_) => {
                    &&& old(self)@.schema.find_local(field_name@) matches Some(i)
                    &&& spec_decode_field(old(self)@.schema.fields[i], value@) matches Some(w)
                    &&& final(self)@.values == old(self)@.values.update(i, w)
                },
                Err(_) => {
                    &&& final(self)@ == old(self)@
                    &&& (old(self)@.schema.find_local(field_name@) matches Some(i) ==>
                        spec_decode_field(old(self)@.schema.fields[i], value@) is None)
                },
            },
    {
        proof {
            crate::schema::lemma_find_local_props(self@.schema.fields, field_name@);
        }
        match self.schema.field_index(field_name) {
            Some(i) => {
                proof {
                    assert(self@.schema.fields[i as int] == self.schema.fields@[i as int]@);
                }
                match decode_field(&self.schema.fields[i], value) {
                    Ok(w) => {
                        self.values.set(i, w);
                        proof {
                            assert(final(self)@.values =~= old(self)@.values.update(
                                i as int,
                                w@,
                            ));
                            lemma_decode_fits(old(self)@.schema.fields[i as int], value@);
                            assert forall|k: int|
                                0 <= k < final(self)@.values.len() implies value_fits(
                                final(self)@.schema.fields[k],
                                #[trigger] final(self)@.values[k],
                            ) by {
                                if k != i {
                                    assert(final(self)@.values[k] == old(self)@.values[k]);
                                }
                            }
                        }
                        Ok(())
                    },
                    Err(e) => {
                        proof {
                            assert(final(self)@ =~= old(self)@);
                        }
                        Err(e)
                    },
                }
            },
            None => {
                proof {
                    assert(final(self)@ =~= old(self)@);
                }
                Err(ConversionError::new("field not found"))
            },
        }
    }

    /// The stored wire value of the field locally named `field_name`;
    /// unknown names are refused.
    pub fn get_field_value(&self, field_name: &str) -> (r: Result<JsonValue, ConversionError>)
        requires
            self@.wf(),
        ensures
            match r {
                Ok(v) => self@.schema.find_local(field_name@) matches Some(i) && v@
                    == self@.values[i],
                Err(_) => self@.schema.find_local(field_name@) is None,
            },
    {
        proof {
            crate::schema::lemma_find_local_props(self@.schema.fields, field_name@);
        }
        match self.schema.field_index(field_name) {
            Some(i) => Ok(self.values[i].clone()),
            None => Err(ConversionError::new("field not found")),
        }
    }

    /// The stored value of the primary-key field.
    pub fn pk_value(&self) -> (r: JsonValue)
        requires
            self@.wf(),
        ensures
            r@ == self@.values[self@.schema.pk_index],
    {
        self.values[self.schema.pk_index].clone()
    }

    /// Builds a record from one positional result row: the cells stand in
    /// the order of the active fields, each is routed through its field's
    /// decoder, missing trailing cells decode as the JSON null, and client
    /// and ignored fields take the JSON null. A row with more cells than
    /// active fields, or with an unreadable cell, is refused.
    pub fn new_from_query_result_row(schema: TableSchema, cells: Vec<JsonValue>) -> (r: Result<
        Record,
        ConversionError,
    >)
        requires
            schema@.wf(),
        ensures
            ({
                let cs = cells@.map_values(|v: JsonValue| v@);
                match r {
                    Ok(rec) => {
                        &&& rec@.schema == schema@
                        &&& rec@.wf()
                        &&& spec_decode_fields(schema@.fields, cs) == Some(rec@.values)
                    },
                    Err(_) => spec_decode_fields(schema@.fields, cs) is None,
                }
            }),
    {
        let ghost fs = schema@.fields;
        let ghost cs = cells@.map_values(|v: JsonValue| v@);
        let n = schema.fields.len();
        let m = cells.len();
        let mut values: Vec<JsonValue> = Vec::new();
        let mut i: usize = 0;
        let mut c: usize = 0;
        proof {
            assert(fs.skip(0) =~= fs);
            assert(cs.skip(0) =~= cs);
        }
        while i < n
            invariant
                n == schema.fields@.len(),
                m == cells@.len(),
                schema@.wf(),
                fs == schema@.fields,
                cs == cells@.map_values(|v: JsonValue| v@),
                n == fs.len(),
                m == cs.len(),
                i <= n,
                c <= m,
                values@.len() == i,
                forall|k: int|
                    0 <= k < i ==> value_fits(fs[k], (#[trigger] values@[k])@),
                spec_decode_fields(fs, cs) == (match spec_decode_fields(
                    fs.skip(i as int),
                    cs.skip(c as int),
                ) {
                    Some(rest) => Some(values@.map_values(|v: JsonValue| v@) + rest),
                    None => None::<Seq<JsonVal>>,
                }),
            decreases n - i,
        {
            proof {
                assert(fs[i as int] == schema.fields@[i as int]@);
                assert(fs.skip(i as int)[0] == fs[i as int]);
                assert(fs.skip(i as int).drop_first() =~= fs.skip(i as int + 1));
            }
            let ghost prevvals = values@.map_values(|v: JsonValue| v@);
            if schema.fields[i].is_client || schema.fields[i].is_ignored {
                values.push(JsonValue::Null);
                proof {
                    assert(values@.map_values(|v: JsonValue| v@) =~= prevvals.push(JsonVal::Null));
                    match spec_decode_fields(fs.skip(i as int + 1), cs.skip(c as int)) {
                        Some(rest) => {
                            assert(prevvals.push(JsonVal::Null) + rest =~= prevvals + (seq![
                                JsonVal::Null,
                            ] + rest));
                        },
                        None => {
                        },
                    }
                }
            } else {
                let cell: JsonValue = if c < m {
                    proof {
                        assert(cs.skip(c as int)[0] == cs[c as int]);
                        assert(cs[c as int] == cells@[c as int]@);
                        assert(cs.skip(c as int).drop_first() =~= cs.skip(c as int + 1));
                    }
                    let cell = cells[c].clone();
                    c = c + 1;
                    cell
                } else {
                    proof {
                        assert(cs.skip(c as int).len() == 0);
                    }
                    JsonValue::Null
                };
                match decode_field(&schema.fields[i], &cell) {
                    Ok(w) => {
                        proof {
                            lemma_decode_fits(fs[i as int], cell@);
                        }
                        values.push(w);
                        proof {
                            assert(values@.map_values(|v: JsonValue| v@) =~= prevvals.push(w@));
                            match spec_decode_fields(fs.skip(i as int + 1), cs.skip(c as int)) {
                                Some(rest) => {
                                    assert(prevvals.push(w@) + rest =~= prevvals + (seq![w@]
                                        + rest));
                                },
                                None => {
                                },
                            }
                        }
                    },
                    Err(e) => {
                        return Err(e);
                    },
                }
            }
            i = i + 1;
        }
        if c < m {
            proof {
                assert(fs.skip(n as int).len() == 0);
                assert(cs.skip(c as int).len() > 0);
            }
            return Err(ConversionError::new("more cells than columns in a result row"));
        }
        proof {
            assert(fs.skip(n as int).len() == 0);
            assert(cs.skip(c as int).len() == 0);
            assert(spec_decode_fields(fs.skip(n as int), cs.skip(c as int)) == Some(Seq::<
                JsonVal,
            >::empty()));
            assert(values@.map_values(|v: JsonValue| v@) + Seq::<JsonVal>::empty() =~= values@.map_values(
                |v: JsonValue| v@,
            ));
        }
        let rec = Record { schema, values };
        Ok(rec)
    }

    /// The parameter contributed by the field locally named `field_name`:
    /// none when the field's stored value is null; unknown names are
    /// refused.
    pub fn get_parameter_from_field(&self, field_name: &str) -> (r: Result<
        Option<QueryParam>,
        BigqueryError,
    >)
        requires
            self@.wf(),
        ensures
            match r {
                Ok(op) => self@.schema.find_local(field_name@) matches Some(i) && (match op {
                    Some(p) => spec_param_for_field(self@.schema.fields[i], self@.values[i])
                        == Some(p@),
                    None => spec_param_for_field(self@.schema.fields[i], self@.values[i]) is None,
                }),
                Err(_) => self@.schema.find_local(field_name@) is None,
            },
    {
        proof {
            crate::schema::lemma_find_local_props(self@.schema.fields, field_name@);
        }
        match self.schema.field_index(field_name) {
            Some(i) => {
                proof {
                    assert(self@.schema.fields[i as int] == self.schema.fields@[i as int]@);
                    assert(self@.values[i as int] == self.values@[i as int]@);
                }
                Ok(make_field_param(&self.schema.fields[i], &self.values[i]))
            },
            None => Err(BigqueryError::new("field not found")),
        }
    }

    /// One entry per active field, in schema order: the field's parameter,
    /// or none where its stored value is null.
    pub fn get_all_params(&self) -> (r: Vec<Option<QueryParam>>)
        requires
            self@.wf(),
        ensures
            r@.len() == self@.schema.active_fields().len(),
            forall|k: int|
                0 <= k < r@.len() ==> (match #[trigger] r@[k] {
                    Some(p) => spec_param_for_field(
                        self@.schema.active_fields()[k],
                        spec_active_values(self@)[k],
                    ) == Some(p@),
                    None => spec_param_for_field(
                        self@.schema.active_fields()[k],
                        spec_active_values(self@)[k],
                    ) is None,
                }),
    {
        broadcast use vstd::seq_lib::group_filter_ensures;

        let ghost fs = self@.schema.fields;
        let ghost vals = self@.values;
        let n = self.values.len();
        let mut r: Vec<Option<QueryParam>> = Vec::new();
        let mut i: usize = 0;
        proof {
            assert(fs.take(0).filter(|f: SpecField| field_active(f)) =~= Seq::<
                SpecField,
            >::empty());
            assert(active_pairs(fs.take(0), vals.take(0)) =~= Seq::<
                (SpecField, JsonVal),
            >::empty());
        }
        while i < n
            invariant
                n == self.values@.len(),
                self@.wf(),
                fs == self@.schema.fields,
                vals == self@.values,
                n == fs.len(),
                n == vals.len(),
                i <= n,
                r@.len() == active_pairs(fs.take(i as int), vals.take(i as int)).len(),
                forall|k: int|
                    0 <= k < r@.len() ==> (match #[trigger] r@[k] {
                        Some(p) => spec_param_for_field(
                            active_pairs(fs.take(i as int), vals.take(i as int))[k].0,
                            active_pairs(fs.take(i as int), vals.take(i as int))[k].1,
                        ) == Some(p@),
                        None => spec_param_for_field(
                            active_pairs(fs.take(i as int), vals.take(i as int))[k].0,
                            active_pairs(fs.take(i as int), vals.take(i as int))[k].1,
                        ) is None,
                    }),
            decreases n - i,
        {
            proof {
                assert(fs[i as int] == self.schema.fields@[i as int]@);
                assert(vals[i as int] == self.values@[i as int]@);
                lemma_active_pairs_push(fs.take(i as int), vals.take(i as int), fs[i as int], vals[i as int]);
                assert(fs.take(i as int).push(fs[i as int]) =~= fs.take(i as int + 1));
                assert(vals.take(i as int).push(vals[i as int]) =~= vals.take(i as int + 1));
            }
            if !self.schema.fields[i].is_client && !self.schema.fields[i].is_ignored {
                r.push(make_field_param(&self.schema.fields[i], &self.values[i]));
            }
            i = i + 1;
        }
        proof {
            assert(fs.take(n as int) =~= fs);
            assert(vals.take(n as int) =~= vals);
            lemma_active_pairs_parts(fs, vals);
        }
        r
    }

    /// Copies every active field of `other` into this record; the client
    /// and ignored slots keep their values. Nothing is persisted.
    pub fn update_from(&mut self, other: &Record) -> (r: Result<(), ConversionError>)
        requires
            old(self)@.wf(),
            other@.wf(),
            old(self)@.schema == other@.schema,
        ensures
            r is Ok,
            final(self)@.schema == old(self)@.schema,
            final(self)@.wf(),
            final(self)@.values.len() == old(self)@.values.len(),
            forall|i: int|
                0 <= i < final(self)@.values.len() ==> final(self)@.values[i] == (if field_active(
                    #[trigger] final(self)@.schema.fields[i],
                ) {
                    other@.values[i]
                } else {
                    old(self)@.values[i]
                }),
    {
        let n = self.values.len();
        let mut i: usize = 0;
        while i < n
            invariant
                n == self.values@.len(),
                n == other.values@.len(),
                i <= n,
                old(self)@.wf(),
                old(self)@.values.len() == n,
                self@.schema == old(self)@.schema,
                other@.wf(),
                old(self)@.schema == other@.schema,
                self@.values.len() == n,
                forall|k: int|
                    0 <= k < i ==> #[trigger] self@.values[k] == (if field_active(
                        self@.schema.fields[k],
                    ) {
                        other@.values[k]
                    } else {
                        old(self)@.values[k]
                    }),
                forall|k: int| i <= k < n ==> #[trigger] self@.values[k] == old(self)@.values[k],
            decreases n - i,
        {
            proof {
                assert(self@.schema.fields[i as int] == self.schema.fields@[i as int]@);
            }
            let ghost prevv = self@.values;
            if !self.schema.fields[i].is_client && !self.schema.fields[i].is_ignored {
                let v = other.values[i].clone();
                proof {
                    assert(v@ == other@.values[i as int]);
                }
                self.values.set(i, v);
                proof {
                    assert(self@.values =~= prevv.update(i as int, v@));
                }
            }
            i = i + 1;
        }
        proof {
            assert(old(self)@.wf());
            assert forall|k: int| 0 <= k < final(self)@.values.len() implies value_fits(
                final(self)@.schema.fields[k],
                #[trigger] final(self)@.values[k],
            ) by {
                if field_active(final(self)@.schema.fields[k]) {
                    assert(final(self)@.values[k] == other@.values[k]);
                    assert(value_fits(other@.schema.fields[k], other@.values[k]));
                }
            }
        }
        Ok(())
    }
}

} // verus!
