//! The record schema: one descriptor per field of a user record, and a table
//! schema holding the ordered field list, the table name, and the positions
//! of the primary-key and client fields.
use vstd::prelude::*;

use crate::query_builder::BigqueryError;
use crate::textfmt::{spec_str_le, str_eq, str_le};

verus! {

/// The warehouse type of a column held by the verified core.
///
/// Fractional numbers (`DOUBLE` columns) stay outside the verified core.
#[derive(Debug, Clone, Copy, PartialEq, Eq, Structural)]
pub enum BqType {
    Bool,
    Int32,
    Int64,
    Text,
    Datetime,
}

/// The warehouse SQL type name of a column type.
pub open spec fn spec_bq_type_text(t: BqType) -> Seq<char> {
    match t {
        BqType::Bool => "BOOL"@,
        BqType::Int32 => "INT64"@,
        BqType::Int64 => "INT64"@,
        BqType::Text => "STRING"@,
        BqType::Datetime => "DATETIME"@,
    }
}

/// Renders the warehouse SQL type name of a column type.
pub fn bq_type_text(t: BqType) -> (r: String)
    ensures
        r@ == spec_bq_type_text(t),
{
    match t {
        BqType::Bool => String::from_str("BOOL"),
        BqType::Int32 => String::from_str("INT64"),
        BqType::Int64 => String::from_str("INT64"),
        BqType::Text => String::from_str("STRING"),
        BqType::Datetime => String::from_str("DATETIME"),
    }
}

/// Mathematical form of a field descriptor.
pub ghost struct SpecField {
    pub local_name: Seq<char>,
    pub db_name: Seq<char>,
    pub field_type: BqType,
    pub nullable: bool,
    pub required: bool,
    pub is_pk: bool,
    pub is_client: bool,
    pub is_ignored: bool,
}

/// One field of a user record: its name in the record, its column name, its
/// column type, and its markers.
#[derive(Debug)]
pub struct FieldDescriptor {
    pub local_name: String,
    pub db_name: String,
    pub field_type: BqType,
    pub nullable: bool,
    pub required: bool,
    pub is_pk: bool,
    pub is_client: bool,
    pub is_ignored: bool,
}

impl View for FieldDescriptor {
    type V = SpecField;

    open spec fn view(&self) -> SpecField {
        SpecField {
            local_name: self.local_name@,
            db_name: self.db_name@,
            field_type: self.field_type,
            nullable: self.nullable,
            required: self.required,
            is_pk: self.is_pk,
            is_client: self.is_client,
            is_ignored: self.is_ignored,
        }
    }
}

impl Clone for FieldDescriptor {
    fn clone(&self) -> (r: Self)
        ensures
            r@ == self@,
    {
        FieldDescriptor {
            local_name: self.local_name.clone(),
            db_name: self.db_name.clone(),
            field_type: self.field_type,
            nullable: self.nullable,
            required: self.required,
            is_pk: self.is_pk,
            is_client: self.is_client,
            is_ignored: self.is_ignored,
        }
    }
}

impl FieldDescriptor {
    /// An ordinary data field: neither key, nor client, nor ignored; it
    /// takes part in every statement.
    pub fn data(local_name: &str, db_name: &str, field_type: BqType, nullable: bool) -> (r: Self)
        ensures
            r@ == (SpecField {
                local_name: local_name@,
                db_name: db_name@,
                field_type,
                nullable,
                required: false,
                is_pk: false,
                is_client: false,
                is_ignored: false,
            }),
    {
        FieldDescriptor {
            local_name: String::from_str(local_name),
            db_name: String::from_str(db_name),
            field_type,
            nullable,
            required: false,
            is_pk: false,
            is_client: false,
            is_ignored: false,
        }
    }

    /// The primary-key field.
    pub fn primary_key(local_name: &str, db_name: &str, field_type: BqType) -> (r: Self)
        ensures
            r@ == (SpecField {
                local_name: local_name@,
                db_name: db_name@,
                field_type,
                nullable: false,
                required: false,
                is_pk: true,
                is_client: false,
                is_ignored: false,
            }),
    {
        FieldDescriptor {
            local_name: String::from_str(local_name),
            db_name: String::from_str(db_name),
            field_type,
            nullable: false,
            required: false,
            is_pk: true,
            is_client: false,
            is_ignored: false,
        }
    }

    /// The field holding the transport handle; never emitted in SQL.
    pub fn client(local_name: &str) -> (r: Self)
        ensures
            r@ == (SpecField {
                local_name: local_name@,
                db_name: local_name@,
                field_type: BqType::Text,
                nullable: true,
                required: false,
                is_pk: false,
                is_client: true,
                is_ignored: false,
            }),
    {
        FieldDescriptor {
            local_name: String::from_str(local_name),
            db_name: String::from_str(local_name),
            field_type: BqType::Text,
            nullable: true,
            required: false,
            is_pk: false,
            is_client: true,
            is_ignored: false,
        }
    }

    /// A field excluded from all emitted SQL and from row decoding.
    pub fn ignored(local_name: &str) -> (r: Self)
        ensures
            r@ == (SpecField {
                local_name: local_name@,
                db_name: local_name@,
                field_type: BqType::Text,
                nullable: true,
                required: false,
                is_pk: false,
                is_client: false,
                is_ignored: true,
            }),
    {
        FieldDescriptor {
            local_name: String::from_str(local_name),
            db_name: String::from_str(local_name),
            field_type: BqType::Text,
            nullable: true,
            required: false,
            is_pk: false,
            is_client: false,
            is_ignored: true,
        }
    }

    /// Marks the field as `NOT NULL`-enforced by the backend.
    pub fn required(self) -> (r: Self)
        ensures
            r@ == (SpecField { required: true, ..self@ }),
    {
        FieldDescriptor { required: true, ..self }
    }
}

/// A field that takes part in emitted SQL and row decoding.
pub open spec fn field_active(f: SpecField) -> bool {
    !f.is_client && !f.is_ignored
}

/// The filter for active fields.
pub open spec fn active_pred() -> spec_fn(SpecField) -> bool {
    |f: SpecField| field_active(f)
}

/// The filter for a statement's column list: active fields, the primary
/// key only on request.
pub open spec fn query_pred(include_pk: bool) -> spec_fn(SpecField) -> bool {
    |f: SpecField| field_active(f) && (include_pk || !f.is_pk)
}

/// Strict lexicographic order on local names.
pub open spec fn spec_local_lt(a: SpecField, b: SpecField) -> bool {
    spec_str_le(a.local_name, b.local_name) && a.local_name != b.local_name
}

/// Mathematical form of a table schema.
pub ghost struct SpecSchema {
    pub table_name: Seq<char>,
    pub fields: Seq<SpecField>,
    pub pk_index: int,
    pub client_index: int,
}

impl SpecSchema {
    /// Well-formed: fields strictly sorted by local name, column names
    /// unique among active fields, exactly one primary key (an active
    /// field), and exactly one client field.
    pub open spec fn wf(&self) -> bool {
        &&& forall|i: int, j: int|
            0 <= i < j < self.fields.len() ==> spec_local_lt(
                #[trigger] self.fields[i],
                #[trigger] self.fields[j],
            )
        &&& forall|i: int, j: int|
            0 <= i < j < self.fields.len() && field_active(#[trigger] self.fields[i])
                && field_active(#[trigger] self.fields[j]) ==> self.fields[i].db_name
                != self.fields[j].db_name
        &&& 0 <= self.pk_index < self.fields.len()
        &&& self.fields[self.pk_index].is_pk
        &&& field_active(self.fields[self.pk_index])
        &&& forall|i: int|
            0 <= i < self.fields.len() && i != self.pk_index ==> !(
            #[trigger] self.fields[i]).is_pk
        &&& 0 <= self.client_index < self.fields.len()
        &&& self.fields[self.client_index].is_client
        &&& forall|i: int|
            0 <= i < self.fields.len() && i != self.client_index ==> !(
            #[trigger] self.fields[i]).is_client
    }

    /// The fields that appear in SQL and row decoding, in schema order.
    pub open spec fn active_fields(&self) -> Seq<SpecField> {
        self.fields.filter(active_pred())
    }

    /// The active fields of a statement's column list: the primary key is
    /// included only on request.
    pub open spec fn query_fields(&self, include_pk: bool) -> Seq<SpecField> {
        self.fields.filter(query_pred(include_pk))
    }

    /// The first field named `name`, when there is one.
    pub open spec fn find_local(&self, name: Seq<char>) -> Option<int> {
        spec_find_local(self.fields, name)
    }

    /// The column name of the active field locally named `name`.
    pub open spec fn db_of_local(&self, name: Seq<char>) -> Option<Seq<char>> {
        match self.find_local(name) {
            Some(i) => Some(self.fields[i].db_name),
            None => None,
        }
    }
}

/// The least index whose field is active and has local name `name`.
pub open spec fn spec_find_local(fs: Seq<SpecField>, name: Seq<char>) -> Option<int>
    decreases fs.len(),
{
    if fs.len() == 0 {
        None
    } else if field_active(fs[0]) && fs[0].local_name == name {
        Some(0)
    } else {
        match spec_find_local(fs.drop_first(), name) {
            Some(i) => Some(i + 1),
            None => None,
        }
    }
}

/// What `spec_find_local` returns: the first active field of that name.
pub proof fn lemma_find_local_props(fs: Seq<SpecField>, name: Seq<char>)
    ensures
        match spec_find_local(fs, name) {
            Some(i) => 0 <= i < fs.len() && field_active(fs[i]) && fs[i].local_name == name,
            None => forall|i: int|
                0 <= i < fs.len() ==> !(field_active(#[trigger] fs[i]) && fs[i].local_name
                    == name),
        },
    decreases fs.len(),
{
    if fs.len() > 0 {
        if !(field_active(fs[0]) && fs[0].local_name == name) {
            lemma_find_local_props(fs.drop_first(), name);
            match spec_find_local(fs.drop_first(), name) {
                Some(i) => {
                    assert(fs[i + 1] == fs.drop_first()[i]);
                },
                None => {
                    assert forall|i: int|
                        0 <= i < fs.len() implies !(field_active(#[trigger] fs[i])
                        && fs[i].local_name == name) by {
                        if i > 0 {
                            assert(fs[i] == fs.drop_first()[i - 1]);
                        }
                    }
                },
            }
        }
    }
}

/// Filtering keeps nothing when no element satisfies the predicate.
proof fn lemma_filter_none(fs: Seq<SpecField>, pred: spec_fn(SpecField) -> bool)
    requires
        forall|i: int| 0 <= i < fs.len() ==> !pred(#[trigger] fs[i]),
    ensures
        fs.filter(pred) == Seq::<SpecField>::empty(),
    decreases fs.len(),
{
    reveal(Seq::filter);
    if fs.len() > 0 {
        lemma_filter_none(fs.drop_last(), pred);
    }
}

/// Two filters whose predicates agree on every element keep the same.
proof fn lemma_filter_same(
    fs: Seq<SpecField>,
    p: spec_fn(SpecField) -> bool,
    q: spec_fn(SpecField) -> bool,
)
    requires
        forall|i: int| 0 <= i < fs.len() ==> p(#[trigger] fs[i]) == q(fs[i]),
    ensures
        fs.filter(p) == fs.filter(q),
    decreases fs.len(),
{
    reveal(Seq::filter);
    if fs.len() > 0 {
        lemma_filter_same(fs.drop_last(), p, q);
    }
}

/// The column list splits by the primary-key mark: with the key, without
/// it, and the key's own entries.
proof fn lemma_filter_pk_split(fs: Seq<SpecField>)
    ensures
        fs.filter(query_pred(true)).len() == fs.filter(query_pred(false)).len() + fs.filter(
            |f: SpecField| field_active(f) && f.is_pk,
        ).len(),
    decreases fs.len(),
{
    reveal(Seq::filter);
    if fs.len() > 0 {
        lemma_filter_pk_split(fs.drop_last());
    }
}

/// The column list with the primary key holds one entry per active field
/// (the primary key included); the list without it omits exactly the
/// primary key and nothing else.
///
/// This is the content of `query_fields`: `query_fields(true)` is the
/// active fields in schema order, `query_fields(false)` the same list less
/// the one primary-key entry, and no client or ignored field appears in
/// either.
pub proof fn lemma_query_fields_law(s: SpecSchema)
    requires
        s.wf(),
    ensures
        s.query_fields(true) == s.active_fields(),
        s.query_fields(true).len() == s.query_fields(false).len() + 1,
        s.query_fields(true).contains(s.fields[s.pk_index]),
        forall|k: int|
            0 <= k < s.query_fields(false).len() ==> !(#[trigger] s.query_fields(false)[k]).is_pk,
        forall|k: int|
            0 <= k < s.query_fields(true).len() ==> field_active(
                #[trigger] s.query_fields(true)[k],
            ),
        forall|k: int|
            0 <= k < s.query_fields(false).len() ==> field_active(
                #[trigger] s.query_fields(false)[k],
            ),
    decreases s.fields.len(),
{
    broadcast use vstd::seq_lib::group_filter_ensures;

    lemma_filter_same(s.fields, query_pred(true), active_pred());
    lemma_filter_pk_split(s.fields);
    let pkpred = |f: SpecField| field_active(f) && f.is_pk;
    let pk = s.fields[s.pk_index];
    assert(s.fields =~= s.fields.take(s.pk_index) + seq![pk] + s.fields.skip(s.pk_index + 1));
    assert((s.fields.take(s.pk_index) + seq![pk] + s.fields.skip(s.pk_index + 1)).filter(pkpred)
        == s.fields.take(s.pk_index).filter(pkpred) + (seq![pk] + s.fields.skip(
        s.pk_index + 1,
    )).filter(pkpred)) by {
        Seq::filter_distributes_over_add(
            s.fields.take(s.pk_index),
            seq![pk] + s.fields.skip(s.pk_index + 1),
            pkpred,
        );
    }
    assert((seq![pk] + s.fields.skip(s.pk_index + 1)).filter(pkpred) == seq![pk].filter(pkpred)
        + s.fields.skip(s.pk_index + 1).filter(pkpred)) by {
        Seq::filter_distributes_over_add(seq![pk], s.fields.skip(s.pk_index + 1), pkpred);
    }
    assert(s.fields.take(s.pk_index).filter(pkpred) == Seq::<SpecField>::empty()) by {
        assert(forall|i: int|
            0 <= i < s.fields.take(s.pk_index).len() ==> #[trigger] s.fields.take(s.pk_index)[i]
                == s.fields[i]);
        lemma_filter_none(s.fields.take(s.pk_index), pkpred);
    }
    assert(s.fields.skip(s.pk_index + 1).filter(pkpred) == Seq::<SpecField>::empty()) by {
        assert(forall|i: int|
            0 <= i < s.fields.skip(s.pk_index + 1).len() ==> #[trigger] s.fields.skip(
                s.pk_index + 1,
            )[i] == s.fields[i + s.pk_index + 1]);
        lemma_filter_none(s.fields.skip(s.pk_index + 1), pkpred);
    }
    assert(seq![pk].filter(pkpred) =~= seq![pk]) by {
        reveal(Seq::filter);
        assert(seq![pk].drop_last() =~= Seq::<SpecField>::empty());
    }
    assert(s.fields.filter(pkpred).len() == 1);
    assert(s.fields.contains(pk));
}

/// In a well-formed schema, looking up the primary key's local name finds
/// the primary key.
pub proof fn lemma_find_pk(s: SpecSchema)
    requires
        s.wf(),
    ensures
        s.find_local(s.fields[s.pk_index].local_name) == Some(s.pk_index),
{
    let name = s.fields[s.pk_index].local_name;
    lemma_find_local_props(s.fields, name);
    match spec_find_local(s.fields, name) {
        Some(i) => {
            if i != s.pk_index {
                if i < s.pk_index {
                    assert(spec_local_lt(s.fields[i], s.fields[s.pk_index]));
                } else {
                    assert(spec_local_lt(s.fields[s.pk_index], s.fields[i]));
                }
            }
        },
        None => {
            assert(field_active(s.fields[s.pk_index]) && s.fields[s.pk_index].local_name == name);
        },
    }
}

/// A table schema: the table name, the fields in lexicographic local-name
/// order, and the positions of the primary-key and client fields.
#[derive(Debug)]
pub struct TableSchema {
    pub table_name: String,
    pub fields: Vec<FieldDescriptor>,
    pub pk_index: usize,
    pub client_index: usize,
}

impl View for TableSchema {
    type V = SpecSchema;

    open spec fn view(&self) -> SpecSchema {
        SpecSchema {
            table_name: self.table_name@,
            fields: self.fields@.map_values(|f: FieldDescriptor| f@),
            pk_index: self.pk_index as int,
            client_index: self.client_index as int,
        }
    }
}

impl Clone for TableSchema {
    fn clone(&self) -> (r: Self)
        ensures
            r@ == self@,
    {
        let mut fields: Vec<FieldDescriptor> = Vec::new();
        let mut i: usize = 0;
        while i < self.fields.len()
            invariant
                i <= self.fields@.len(),
                fields@.len() == i,
                forall|k: int| 0 <= k < i ==> (#[trigger] fields@[k])@ == self.fields@[k]@,
            decreases self.fields@.len() - i,
        {
            fields.push(self.fields[i].clone());
            i = i + 1;
        }
        proof {
            assert(fields@.map_values(|f: FieldDescriptor| f@) =~= self.fields@.map_values(
                |f: FieldDescriptor| f@,
            ));
        }
        let r = TableSchema {
            table_name: self.table_name.clone(),
            fields,
            pk_index: self.pk_index,
            client_index: self.client_index,
        };
        proof {
            assert(r@ =~= self@);
        }
        r
    }
}

/// The conditions under which a registration is accepted, over the listed
/// fields in their given order.
pub open spec fn spec_registration_ok(fs: Seq<SpecField>) -> bool {
    &&& forall|i: int, j: int|
        0 <= i < j < fs.len() ==> spec_local_lt(#[trigger] fs[i], #[trigger] fs[j])
    &&& forall|i: int, j: int|
        0 <= i < j < fs.len() && field_active(#[trigger] fs[i]) && field_active(
            #[trigger] fs[j],
        ) ==> fs[i].db_name != fs[j].db_name
    &&& (exists|i: int| 0 <= i < fs.len() && (#[trigger] fs[i]).is_pk)
    &&& forall|i: int, j: int|
        0 <= i < fs.len() && 0 <= j < fs.len() && (#[trigger] fs[i]).is_pk && (
        #[trigger] fs[j]).is_pk ==> i == j
    &&& forall|i: int| 0 <= i < fs.len() && (#[trigger] fs[i]).is_pk ==> field_active(fs[i])
    &&& (exists|i: int| 0 <= i < fs.len() && (#[trigger] fs[i]).is_client)
    &&& forall|i: int, j: int|
        0 <= i < fs.len() && 0 <= j < fs.len() && (#[trigger] fs[i]).is_client && (
        #[trigger] fs[j]).is_client ==> i == j
}

impl TableSchema {
    /// Registers a record type.
    ///
    /// The table name is `record_name`, unless `table_override` gives another.
    /// The fields must be listed in strict lexicographic local-name order —
    /// the iteration order the schema guarantees — with exactly one
    /// primary-key field (neither client nor ignored), exactly one client
    /// field, and no repeated column name among active fields; any other
    /// list is refused.
    pub fn new(record_name: &str, table_override: Option<&str>, fields: Vec<FieldDescriptor>) -> (r:
        Result<TableSchema, BigqueryError>)
        ensures
            ({
                let fs = fields@.map_values(|f: FieldDescriptor| f@);
                match r {
                    Ok(s) => {
                        &&& spec_registration_ok(fs)
                        &&& s@.wf()
                        &&& s@.fields == fs
                        &&& s@.table_name == (match table_override {
                            Some(t) => t@,
                            None => record_name@,
                        })
                    },
                    Err(_) => !spec_registration_ok(fs),
                }
            }),
    {
        let ghost fs = fields@.map_values(|f: FieldDescriptor| f@);
        let n = fields.len();
        // Order and column-name uniqueness.
        let mut i: usize = 0;
        while i < n
            invariant
                n == fields@.len(),
                fs == fields@.map_values(|f: FieldDescriptor| f@),
                i <= n,
                forall|a: int, b: int|
                    0 <= a < b < n && a < i ==> spec_local_lt(#[trigger] fs[a], #[trigger] fs[b]),
                forall|a: int, b: int|
                    0 <= a < b < n && a < i && field_active(#[trigger] fs[a]) && field_active(
                        #[trigger] fs[b],
                    ) ==> fs[a].db_name != fs[b].db_name,
            decreases n - i,
        {
            let mut j: usize = i + 1;
            while j < n
                invariant
                    n == fields@.len(),
                    fs == fields@.map_values(|f: FieldDescriptor| f@),
                    i < j <= n,
                    i < n,
                    forall|b: int| i < b < j ==> spec_local_lt(fs[i as int], #[trigger] fs[b]),
                    forall|b: int|
                        i < b < j && field_active(fs[i as int]) && field_active(#[trigger] fs[b])
                            ==> fs[i as int].db_name != fs[b].db_name,
                decreases n - j,
            {
                proof {
                    assert(fs[i as int] == fields@[i as int]@);
                    assert(fs[j as int] == fields@[j as int]@);
                }
                let le = str_le(fields[i].local_name.as_str(), fields[j].local_name.as_str());
                let eq = str_eq(fields[i].local_name.as_str(), fields[j].local_name.as_str());
                if !le || eq {
                    proof {
                        assert(!spec_local_lt(fs[i as int], fs[j as int]));
                        assert(!spec_registration_ok(fs));
                    }
                    return Err(
                        BigqueryError::new("fields must be listed in lexicographic order, without repeats"),
                    );
                }
                let act_i = !fields[i].is_client && !fields[i].is_ignored;
                let act_j = !fields[j].is_client && !fields[j].is_ignored;
                if act_i && act_j && str_eq(fields[i].db_name.as_str(), fields[j].db_name.as_str())
                {
                    proof {
                        assert(field_active(fs[i as int]) && field_active(fs[j as int])
                            && fs[i as int].db_name == fs[j as int].db_name);
                        assert(!spec_registration_ok(fs));
                    }
                    return Err(BigqueryError::new("duplicate column name"));
                }
                j = j + 1;
            }
            i = i + 1;
        }
        // Exactly one primary key, active; exactly one client field.
        let mut pk_index: usize = 0;
        let mut pk_seen = false;
        let mut client_index: usize = 0;
        let mut client_seen = false;
        let mut k: usize = 0;
        while k < n
            invariant
                n == fields@.len(),
                fs == fields@.map_values(|f: FieldDescriptor| f@),
                k <= n,
                pk_seen ==> pk_index < k && fs[pk_index as int].is_pk && field_active(
                    fs[pk_index as int],
                ),
                !pk_seen ==> forall|a: int| 0 <= a < k ==> !(#[trigger] fs[a]).is_pk,
                pk_seen ==> forall|a: int|
                    0 <= a < k && a != pk_index ==> !(#[trigger] fs[a]).is_pk,
                client_seen ==> client_index < k && fs[client_index as int].is_client,
                !client_seen ==> forall|a: int| 0 <= a < k ==> !(#[trigger] fs[a]).is_client,
                client_seen ==> forall|a: int|
                    0 <= a < k && a != client_index ==> !(#[trigger] fs[a]).is_client,
            decreases n - k,
        {
            proof {
                assert(fs[k as int] == fields@[k as int]@);
            }
            if fields[k].is_pk {
                if pk_seen {
                    proof {
                        assert(fs[pk_index as int].is_pk && fs[k as int].is_pk && pk_index != k);
                        assert(!spec_registration_ok(fs));
                    }
                    return Err(BigqueryError::new("more than one primary-key field"));
                }
                if fields[k].is_client || fields[k].is_ignored {
                    proof {
                        assert(fs[k as int].is_pk && !field_active(fs[k as int]));
                        assert(!spec_registration_ok(fs));
                    }
                    return Err(
                        BigqueryError::new("the primary-key field may be neither client nor ignored"),
                    );
                }
                pk_index = k;
                pk_seen = true;
            }
            if fields[k].is_client {
                if client_seen {
                    proof {
                        assert(fs[client_index as int].is_client && fs[k as int].is_client
                            && client_index != k);
                        assert(!spec_registration_ok(fs));
                    }
                    return Err(BigqueryError::new("more than one client field"));
                }
                client_index = k;
                client_seen = true;
            }
            k = k + 1;
        }
        if !pk_seen {
            return Err(BigqueryError::new("a primary-key field must be marked"));
        }
        if !client_seen {
            return Err(BigqueryError::new("a client field must be marked"));
        }
        let table_name = match table_override {
            Some(t) => String::from_str(t),
            None => String::from_str(record_name),
        };
        let r = TableSchema { table_name, fields, pk_index, client_index };
        proof {
            assert(r@.fields == fs);
            assert(spec_registration_ok(fs));
            assert(r@.wf());
        }
        Ok(r)
    }

    /// The table's name in the database.
    pub fn get_table_name(&self) -> (r: String)
        ensures
            r@ == self@.table_name,
    {
        self.table_name.clone()
    }

    /// The local name of the primary-key field.
    pub fn get_pk_field_name(&self) -> (r: String)
        requires
            self@.wf(),
        ensures
            r@ == self@.fields[self@.pk_index].local_name,
    {
        self.fields[self.pk_index].local_name.clone()
    }

    /// The column name of the primary-key field.
    pub fn get_pk_db_name(&self) -> (r: String)
        requires
            self@.wf(),
        ensures
            r@ == self@.fields[self@.pk_index].db_name,
    {
        self.fields[self.pk_index].db_name.clone()
    }

    /// One pair per field of a statement's column list, in schema order:
    /// the local name and the column name. Client and ignored fields are
    /// excluded; the primary key is included only on request.
    pub fn get_query_fields(&self, include_pk: bool) -> (r: Vec<(String, String)>)
        ensures
            r@.len() == self@.query_fields(include_pk).len(),
            forall|k: int|
                0 <= k < r@.len() ==> (#[trigger] r@[k]).0@ == self@.query_fields(include_pk)[k].local_name
                    && r@[k].1@ == self@.query_fields(include_pk)[k].db_name,
    {
        broadcast use Seq::lemma_filter_push;

        let ghost fs = self@.fields;
        let ghost pred = query_pred(include_pk);
        let n = self.fields.len();
        let mut r: Vec<(String, String)> = Vec::new();
        let mut i: usize = 0;
        proof {
            assert(fs.take(0).filter(pred) =~= Seq::<SpecField>::empty());
        }
        while i < n
            invariant
                n == self.fields@.len(),
                fs == self@.fields,
                n == fs.len(),
                pred == query_pred(include_pk),
                i <= n,
                r@.len() == fs.take(i as int).filter(pred).len(),
                forall|k: int|
                    0 <= k < r@.len() ==> (#[trigger] r@[k]).0@ == fs.take(i as int).filter(
                        pred,
                    )[k].local_name && r@[k].1@ == fs.take(i as int).filter(pred)[k].db_name,
            decreases n - i,
        {
            proof {
                assert(fs[i as int] == self.fields@[i as int]@);
                assert(fs.take(i as int).push(fs[i as int]) =~= fs.take(i as int + 1));
                fs.take(i as int).lemma_filter_push(fs[i as int], pred);
                assert(pred(fs[i as int]) == (field_active(fs[i as int]) && (include_pk
                    || !fs[i as int].is_pk)));
            }
            let f = &self.fields[i];
            if !f.is_client && !f.is_ignored && (include_pk || !f.is_pk) {
                r.push((f.local_name.clone(), f.db_name.clone()));
            }
            i = i + 1;
        }
        proof {
            assert(fs.take(n as int) =~= fs);
        }
        r
    }

    /// The index of the active field locally named `name`, when one exists.
    pub fn field_index(&self, name: &str) -> (r: Option<usize>)
        ensures
            match r {
                Some(i) => self@.find_local(name@) == Some(i as int),
                None => self@.find_local(name@) is None,
            },
    {
        let ghost fs = self@.fields;
        let mut i: usize = 0;
        proof {
            assert(fs.skip(0) =~= fs);
        }
        while i < self.fields.len()
            invariant
                i <= self.fields@.len(),
                fs == self@.fields,
                fs.len() == self.fields@.len(),
                forall|a: int|
                    0 <= a < i ==> !(field_active(#[trigger] fs[a]) && fs[a].local_name == name@),
                spec_find_local(fs, name@) == match spec_find_local(fs.skip(i as int), name@) {
                    Some(x) => Some(x + i),
                    None => None::<int>,
                },
            decreases self.fields@.len() - i,
        {
            let active = !self.fields[i].is_client && !self.fields[i].is_ignored;
            proof {
                assert(fs.skip(i as int)[0] == fs[i as int]);
            }
            if active && str_eq(self.fields[i].local_name.as_str(), name) {
                return Some(i);
            }
            proof {
                assert(fs.skip(i as int).drop_first() =~= fs.skip(i as int + 1));
            }
            i = i + 1;
        }
        proof {
            assert(fs.skip(self.fields@.len() as int).len() == 0);
        }
        None
    }
}

} // verus!
