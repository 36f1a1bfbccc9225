use google_bigquery_v2::client::BigqueryClient;
use google_bigquery_v2::json::JsonValue;
use google_bigquery_v2::query_builder::{QueryBuilder, QueryResultType};
use google_bigquery_v2::record::Record;
use google_bigquery_v2::schema::{BqType, FieldDescriptor, TableSchema};
use google_bigquery_v2::table::{save_outcome, single_row_result, upsert_action, UpsertAction};
use google_bigquery_v2::OrderDirection;

fn infos_schema() -> TableSchema {
    let fields = vec![
        FieldDescriptor::client("client"),
        FieldDescriptor::data("info1", "info1", BqType::Text, true),
        FieldDescriptor::data("info2", "info", BqType::Text, true),
        FieldDescriptor::data("info3", "info3", BqType::Text, true),
        FieldDescriptor::data("info4b", "yes", BqType::Bool, true),
        FieldDescriptor::data("info4i", "info4i", BqType::Int32, true),
        FieldDescriptor::primary_key("row_id", "Id", BqType::Int64),
    ];
    TableSchema::new("DbInfos", Some("Infos"), fields).expect("schema registration failed")
}

fn test_client() -> BigqueryClient {
    BigqueryClient::new("testrustproject-372221", "test1")
}

fn sample_record(schema: TableSchema) -> Record {
    let mut rec = Record::new(schema);
    rec.set_field_value("row_id", &JsonValue::Integer(1)).unwrap();
    rec.set_field_value("info1", &JsonValue::Text(String::from("a"))).unwrap();
    rec.set_field_value("info3", &JsonValue::Text(String::from("c"))).unwrap();
    rec.set_field_value("info4i", &JsonValue::Integer(1)).unwrap();
    rec.set_field_value("info4b", &JsonValue::Text(String::from("true"))).unwrap();
    rec
}

#[test]
fn test_get_table_name() {
    let schema = infos_schema();
    let name = schema.get_table_name();
    assert_eq!("Infos", name.as_str(), "table name is not correct");
}

#[test]
fn test_get_query_fields() {
    let schema = infos_schema();
    let fields = schema.get_query_fields(true);
    assert_eq!(6, fields.len(), "fields length is not correct");
    let get = |local: &str| -> String {
        fields
            .iter()
            .find(|(l, _)| l.as_str() == local)
            .map(|(_, d)| d.clone())
            .unwrap()
    };
    assert_eq!("Id", get("row_id"));
    assert_eq!("info1", get("info1"));
    assert_eq!("info", get("info2"));
    assert_eq!("info3", get("info3"));
    assert_eq!("info4i", get("info4i"));
    assert_eq!("yes", get("info4b"));
    let without_pk = schema.get_query_fields(false);
    assert_eq!(5, without_pk.len());
    assert!(without_pk.iter().all(|(l, _)| l != "row_id"));
}

#[test]
fn test_query_builder_1() {
    let schema = infos_schema();
    let client = test_client();
    let query_builder = QueryBuilder::select(schema).with_client(client);
    let query_builder = query_builder
        .add_where_eq::<String>("info1", None)
        .unwrap()
        .add_where_eq("info3", Some(&"cc".to_string()))
        .unwrap()
        .add_order_by("info2", OrderDirection::Ascending);
    let built = query_builder.build_query().unwrap();
    let query_string = built.get_query_string().to_string();
    let expected_query_string =
        "SELECT info1, info, info3, yes, info4i, Id FROM `testrustproject-372221.test1.Infos` WHERE info1 is NULL AND info3 = @__PARAM_0 ORDER BY info ASC".to_string();
    assert_eq!(query_string, expected_query_string);
    assert_eq!(built.params.len(), 1);
    assert_eq!(built.params[0].name.as_str(), "__PARAM_0");
    assert_eq!(built.params[0].param_type.as_str(), "STRING");
    assert_eq!(built.params[0].value.as_deref(), Some("cc"));
}

#[test]
fn test_empty_client() {
    let empty_client = BigqueryClient::empty();
    println!("empty client: {:?}", empty_client);
}

#[test]
fn select_with_limit() {
    let schema = infos_schema();
    let built = QueryBuilder::select(schema)
        .with_client(test_client())
        .set_limit(1)
        .build_query()
        .unwrap();
    assert_eq!(
        built.get_query_string(),
        "SELECT info1, info, info3, yes, info4i, Id FROM `testrustproject-372221.test1.Infos` LIMIT 1"
    );
}

#[test]
fn insert_emits_columns_and_values() {
    let schema = infos_schema();
    let rec = sample_record(infos_schema());
    let built = QueryBuilder::insert(schema)
        .with_client(test_client())
        .set_data(rec)
        .build_query()
        .expect("query builder failed");
    assert_eq!(
        built.get_query_string(),
        "insert into `testrustproject-372221.test1.Infos` (info1, info, info3, yes, info4i, Id) \
         values(@__PARAM_info1, NULL, @__PARAM_info3, @__PARAM_yes, @__PARAM_info4i, @__PARAM_Id)"
    );
    assert_eq!(built.params.len(), 5);
    let names: Vec<&str> = built.params.iter().map(|p| p.name.as_str()).collect();
    assert_eq!(
        names,
        vec![
            "__PARAM_info1",
            "__PARAM_info3",
            "__PARAM_yes",
            "__PARAM_info4i",
            "__PARAM_Id"
        ]
    );
    assert_eq!(built.params[2].value.as_deref(), Some("TRUE"));
    assert_eq!(built.params[2].param_type.as_str(), "BOOL");
    assert_eq!(built.params[4].value.as_deref(), Some("1"));
}

#[test]
fn update_without_where_uses_pk() {
    let schema = infos_schema();
    let mut rec = Record::new(infos_schema());
    rec.set_field_value("row_id", &JsonValue::Integer(7)).unwrap();
    rec.set_field_value("info1", &JsonValue::Text(String::from("x"))).unwrap();
    let built = QueryBuilder::update(schema)
        .with_client(test_client())
        .set_data(rec)
        .build_query()
        .unwrap();
    let q = built.get_query_string().to_string();
    assert!(q.starts_with("update `testrustproject-372221.test1.Infos` set "));
    assert!(q.ends_with(" WHERE Id = @__PARAM_Id"));
    assert!(q.contains("info1 = @__PARAM_info1"));
    assert!(q.contains("info = NULL"));
    assert_eq!(built.where_clauses.len(), 1);
    assert_eq!(built.where_clauses[0].as_str(), "Id = @__PARAM_Id");
    assert_eq!(built.params.len(), 2);
    assert_eq!(built.params[0].name.as_str(), "__PARAM_Id");
    assert_eq!(built.params[1].name.as_str(), "__PARAM_info1");
}

#[test]
fn delete_emits_pk_where() {
    let schema = infos_schema();
    let mut rec = Record::new(infos_schema());
    rec.set_field_value("row_id", &JsonValue::Integer(7)).unwrap();
    rec.set_field_value("info1", &JsonValue::Text(String::from("x"))).unwrap();
    let built = QueryBuilder::delete(schema)
        .with_client(test_client())
        .set_data(rec)
        .build_query()
        .expect("could not build delete");
    assert_eq!(
        built.get_query_string(),
        "DELETE FROM `testrustproject-372221.test1.Infos`  WHERE Id = @__PARAM_Id"
    );
    assert_eq!(built.params.len(), 1);
    assert_eq!(built.params[0].value.as_deref(), Some("7"));
}

#[test]
fn get_by_pk_empty_result_is_cardinality_error() {
    let err = single_row_result(Vec::new(), "Id", "9999").unwrap_err();
    assert_eq!(err.message.as_str(), "No entry found for Id = 9999");
}

#[test]
fn get_by_pk_two_rows_is_cardinality_error() {
    let schema = infos_schema();
    let rows = vec![Record::new(schema.clone()), Record::new(schema)];
    let err = single_row_result(rows, "Id", "7").unwrap_err();
    assert_eq!(err.message.as_str(), "More than one entry found for Id = 7");
}

#[test]
fn get_by_pk_single_row_is_returned() {
    let schema = infos_schema();
    let rows = vec![sample_record(schema)];
    let rec = single_row_result(rows, "Id", "1").unwrap();
    match rec.get_field_value("info1").unwrap() {
        JsonValue::Text(s) => assert_eq!(s.as_str(), "a"),
        other => panic!("unexpected value: {:?}", other),
    }
}

#[test]
fn run_select_yields_row_data() {
    let schema = infos_schema();
    let built = QueryBuilder::select(schema)
        .with_client(test_client())
        .build_query()
        .unwrap();
    let rows = Some(vec![vec![
        JsonValue::Text(String::from("a")),
        JsonValue::Null,
        JsonValue::Text(String::from("c")),
        JsonValue::Text(String::from("true")),
        JsonValue::Text(String::from("42")),
        JsonValue::Text(String::from("7")),
    ]]);
    let result = built.interpret_response(&rows).unwrap();
    assert!(result.is_with_row_data());
    let recs = result.expect_with_data("no data");
    assert_eq!(recs.len(), 1);
    match recs[0].get_field_value("info4i").unwrap() {
        JsonValue::Integer(n) => assert_eq!(n, 42),
        other => panic!("unexpected value: {:?}", other),
    }
    match recs[0].get_field_value("info4b").unwrap() {
        JsonValue::Text(s) => assert_eq!(s.as_str(), "TRUE"),
        other => panic!("unexpected value: {:?}", other),
    }
}

#[test]
fn run_insert_yields_no_row_data() {
    let schema = infos_schema();
    let rec = sample_record(infos_schema());
    let built = QueryBuilder::insert(schema)
        .with_client(test_client())
        .set_data(rec)
        .build_query()
        .unwrap();
    let result = built.interpret_response(&None).unwrap();
    assert!(result.is_without_row_data());
    result
        .expect_without_data("delete should not return any data")
        .unwrap();
}

#[test]
fn result_type_accessors() {
    let with: QueryResultType<i64> = QueryResultType::WithRowData(vec![1, 2]);
    assert!(with.is_with_row_data());
    let rows = with.map_err_with_data("boom").unwrap();
    assert_eq!(rows, vec![1, 2]);
    let without: QueryResultType<i64> = QueryResultType::WithoutRowData(Ok(()));
    assert!(without.is_without_row_data());
    without.map_err_without_data("boom").unwrap();
    let mismatch: QueryResultType<i64> = QueryResultType::WithoutRowData(Ok(()));
    let err = mismatch.map_err_with_data("boom").unwrap_err();
    assert_eq!(err.message.as_str(), "map_err_with_data message:boom");
    let mismatch2: QueryResultType<i64> = QueryResultType::WithRowData(vec![3]);
    let err2 = mismatch2.map_err_without_data("boom").unwrap_err();
    assert_eq!(err2.message.as_str(), "map_err_without_data message:boom");
}

#[test]
fn save_outcome_rules() {
    let ok: QueryResultType<Record> = QueryResultType::WithoutRowData(Ok(()));
    save_outcome(ok).unwrap();
    let empty_rows: QueryResultType<Record> = QueryResultType::WithRowData(Vec::new());
    save_outcome(empty_rows).unwrap();
    let rows: QueryResultType<Record> =
        QueryResultType::WithRowData(vec![Record::new(infos_schema())]);
    let err = save_outcome(rows).unwrap_err();
    assert_eq!(
        err.message.as_str(),
        "save should return empty data, but returned 1 rows."
    );
}

#[test]
fn upsert_dispatch() {
    assert_eq!(upsert_action(true), UpsertAction::Save);
    assert_eq!(upsert_action(false), UpsertAction::Insert);
}

#[test]
fn unknown_columns_are_refused() {
    let schema = infos_schema();
    let err = QueryBuilder::select(schema)
        .with_client(test_client())
        .add_where_eq::<String>("no_such_field", None)
        .unwrap_err();
    assert_eq!(err.message.as_str(), "Field no_such_field not found.");
    let schema = infos_schema();
    let err = QueryBuilder::select(schema)
        .with_client(test_client())
        .add_order_by("nope", OrderDirection::Descending)
        .build_query()
        .unwrap_err();
    assert_eq!(err.message.as_str(), "order by column not found");
}

#[test]
fn where_eq_client_field_is_refused() {
    let schema = infos_schema();
    let err = QueryBuilder::select(schema)
        .with_client(test_client())
        .add_where_eq::<String>("client", None)
        .unwrap_err();
    assert_eq!(err.message.as_str(), "Field client not found.");
}

#[test]
fn un_build_keeps_state() {
    let schema = infos_schema();
    let built = QueryBuilder::select(schema)
        .with_client(test_client())
        .set_limit(3)
        .build_query()
        .unwrap();
    let q1 = built.get_query_string().to_string();
    let again = built.un_build().build_query().unwrap();
    assert_eq!(again.get_query_string(), q1.as_str());
}

#[test]
fn build_request_shape() {
    let schema = infos_schema();
    let built = QueryBuilder::select(schema)
        .with_client(test_client())
        .build_query()
        .unwrap();
    let req = built.build_request();
    assert!(!req.use_legacy_sql);
    assert!(req.query_parameters.is_none());
    assert_eq!(req.query.as_str(), built.get_query_string());

    let schema = infos_schema();
    let built = QueryBuilder::select(schema)
        .with_client(test_client())
        .add_where_eq("info3", Some(&"x".to_string()))
        .unwrap()
        .build_query()
        .unwrap();
    let req = built.build_request();
    let ps = req.query_parameters.unwrap();
    assert_eq!(ps.len(), 1);
    assert_eq!(ps[0].name.as_str(), "__PARAM_0");
}

#[test]
fn builders_are_cloneable() {
    let schema = infos_schema();
    let builder = QueryBuilder::select(schema)
        .with_client(test_client())
        .add_where_eq("info3", Some(&"cc".to_string()))
        .unwrap();
    let first = builder.clone().build_query().unwrap();
    let second = builder.build_query().unwrap();
    assert_eq!(first.get_query_string(), second.get_query_string());
    assert_eq!(first.params.len(), second.params.len());
}

#[test]
fn order_by_direction_keywords() {
    assert_eq!(OrderDirection::Ascending.to_query_str().as_str(), "ASC");
    assert_eq!(OrderDirection::Descending.to_query_str().as_str(), "DESC");
}

#[test]
fn ordered_select_second_key() {
    let schema = infos_schema();
    let built = QueryBuilder::select(schema)
        .with_client(test_client())
        .add_order_by("row_id", OrderDirection::Descending)
        .add_order_by("info2", OrderDirection::Ascending)
        .build_query()
        .unwrap();
    assert!(built
        .get_query_string()
        .ends_with(" ORDER BY Id DESC, info ASC"));
}
