use google_bigquery_v2::conversion::{
    convert_value_to_string, ConvertBigQueryParams, ConvertTypeToBigQueryType,
};
use google_bigquery_v2::datetime::{datetime_to_string, parse_datetime, Datetime};
use google_bigquery_v2::json::JsonValue;
use google_bigquery_v2::query_builder::check_status;
use google_bigquery_v2::record::{get_parameter, Record};
use google_bigquery_v2::schema::{BqType, FieldDescriptor, TableSchema};
use google_bigquery_v2::textfmt::{i64_to_string, str_eq, str_le, u64_to_string};

fn infos_fields() -> Vec<FieldDescriptor> {
    vec![
        FieldDescriptor::client("client"),
        FieldDescriptor::data("info1", "info1", BqType::Text, true),
        FieldDescriptor::data("info2", "info", BqType::Text, true),
        FieldDescriptor::data("info3", "info3", BqType::Text, true),
        FieldDescriptor::data("info4b", "yes", BqType::Bool, true),
        FieldDescriptor::data("info4i", "info4i", BqType::Int32, true),
        FieldDescriptor::primary_key("row_id", "Id", BqType::Int64),
    ]
}

fn infos_schema() -> TableSchema {
    TableSchema::new("DbInfos", Some("Infos"), infos_fields()).unwrap()
}

#[test]
fn int64_round_trip() {
    for v in [0i64, 1, -1, 42, i64::MAX, i64::MIN] {
        let wire = v.to_param();
        let back = i64::from_param(&wire).unwrap();
        assert_eq!(v, back);
    }
}

#[test]
fn int64_tolerant_parse() {
    assert_eq!(
        i64::from_param(&JsonValue::Text(String::from("123"))).unwrap(),
        123
    );
    assert_eq!(
        i64::from_param(&JsonValue::Text(String::from("-9223372036854775808"))).unwrap(),
        i64::MIN
    );
    assert_eq!(
        i64::from_param(&JsonValue::Text(String::from("+7"))).unwrap(),
        7
    );
    assert_eq!(i64::from_param(&JsonValue::Integer(9)).unwrap(), 9);
    assert!(i64::from_param(&JsonValue::Text(String::from("9223372036854775808"))).is_err());
    assert!(i64::from_param(&JsonValue::Text(String::from(""))).is_err());
    assert!(i64::from_param(&JsonValue::Text(String::from("12a"))).is_err());
    assert!(i64::from_param(&JsonValue::Text(String::from("--4"))).is_err());
    assert!(i64::from_param(&JsonValue::Null).is_err());
}

#[test]
fn int32_range_is_checked() {
    assert_eq!(
        i32::from_param(&JsonValue::Text(String::from("-2147483648"))).unwrap(),
        i32::MIN
    );
    assert!(i32::from_param(&JsonValue::Text(String::from("2147483648"))).is_err());
    assert!(i32::from_param(&JsonValue::Integer(1i64 << 40)).is_err());
    assert_eq!(i32::from_param(&JsonValue::Integer(-5)).unwrap(), -5);
}

#[test]
fn bool_round_trip_and_spellings() {
    assert_eq!(true.to_param(), JsonValue::Text(String::from("TRUE")));
    assert_eq!(false.to_param(), JsonValue::Text(String::from("FALSE")));
    for (text, expect) in [("TRUE", true), ("true", true), ("FALSE", false), ("false", false)] {
        assert_eq!(
            bool::from_param(&JsonValue::Text(String::from(text))).unwrap(),
            expect
        );
    }
    let err = bool::from_param(&JsonValue::Text(String::from("yes"))).unwrap_err();
    assert_eq!(err.message.as_str(), "Invalid value for bool");
    assert!(bool::from_param(&JsonValue::Boolean(true)).is_err());
}

#[test]
fn string_and_option_round_trip() {
    let s = String::from("hello");
    let wire = s.to_param();
    assert_eq!(String::from_param(&wire).unwrap().as_str(), "hello");
    let some: Option<String> = Some(String::from("x"));
    assert_eq!(
        Option::<String>::from_param(&some.to_param()).unwrap(),
        Some(String::from("x"))
    );
    let none: Option<String> = None;
    assert_eq!(none.to_param(), JsonValue::Null);
    assert_eq!(Option::<String>::from_param(&JsonValue::Null).unwrap(), None);
}

#[test]
fn datetime_codec() {
    let dt = Datetime { year: 2023, month: 1, day: 2, hour: 3, minute: 4, second: 5 };
    assert_eq!(datetime_to_string(&dt).as_str(), "2023-01-02 03:04:05");
    assert_eq!(dt.to_param(), JsonValue::Text(String::from("2023-01-02 03:04:05")));
    assert_eq!(parse_datetime("2023-01-02 03:04:05").unwrap(), dt);
    assert_eq!(parse_datetime("2023-01-02T03:04:05Z").unwrap(), dt);
    assert_eq!(parse_datetime("2023-01-02T03:04:05").unwrap(), dt);
    assert_eq!(
        Datetime::from_param(&JsonValue::Text(String::from("2023-01-02T03:04:05Z"))).unwrap(),
        dt
    );
    assert!(parse_datetime("2023-13-02 03:04:05").is_err());
    assert!(parse_datetime("2023-02-29 00:00:00").is_err());
    assert!(parse_datetime("2024-02-29 00:00:00").is_ok());
    assert!(parse_datetime("2023-01-02").is_err());
    assert!(parse_datetime("2023-01-02 03:04:65").is_err());
    assert_eq!(Datetime::convert_type_to_bigquery_type().as_str(), "DATETIME");
}

#[test]
fn warehouse_type_names() {
    assert_eq!(bool::convert_type_to_bigquery_type().as_str(), "BOOL");
    assert_eq!(i32::convert_type_to_bigquery_type().as_str(), "INT64");
    assert_eq!(i64::convert_type_to_bigquery_type().as_str(), "INT64");
    assert_eq!(u64::convert_type_to_bigquery_type().as_str(), "INT64");
    assert_eq!(String::convert_type_to_bigquery_type().as_str(), "STRING");
    assert_eq!(<&str>::convert_type_to_bigquery_type().as_str(), "STRING");
    assert_eq!(
        Option::<bool>::convert_type_to_bigquery_type().as_str(),
        "BOOL"
    );
}

#[test]
fn value_to_string_rules() {
    assert_eq!(
        convert_value_to_string(JsonValue::Text(String::from("x")))
            .unwrap()
            .as_str(),
        "x"
    );
    assert_eq!(
        convert_value_to_string(JsonValue::Integer(-17)).unwrap().as_str(),
        "-17"
    );
    assert_eq!(
        convert_value_to_string(JsonValue::Boolean(true)).unwrap().as_str(),
        "true"
    );
    let err = convert_value_to_string(JsonValue::Null).unwrap_err();
    assert_eq!(err.message.as_str(), "Value is Null");
}

#[test]
fn decimal_rendering() {
    assert_eq!(u64_to_string(0).as_str(), "0");
    assert_eq!(u64_to_string(18446744073709551615).as_str(), "18446744073709551615");
    assert_eq!(i64_to_string(-1).as_str(), "-1");
    assert_eq!(i64_to_string(i64::MIN).as_str(), "-9223372036854775808");
    assert_eq!(i64_to_string(1000).as_str(), "1000");
}

#[test]
fn string_order_and_equality() {
    assert!(str_eq("abc", "abc"));
    assert!(!str_eq("abc", "abd"));
    assert!(!str_eq("abc", "ab"));
    assert!(str_le("ab", "abc"));
    assert!(str_le("abc", "abd"));
    assert!(!str_le("b", "abc"));
    assert!(str_le("", "a"));
}

#[test]
fn status_check() {
    check_status(200).unwrap();
    let err = check_status(404).unwrap_err();
    assert_eq!(err.message.as_str(), "Wrong status code returned! (404)");
}

#[test]
fn registration_checks() {
    // Out of order.
    let mut fields = infos_fields();
    fields.swap(0, 1);
    assert!(TableSchema::new("DbInfos", None, fields).is_err());
    // Duplicate column name among active fields.
    let fields = vec![
        FieldDescriptor::client("client"),
        FieldDescriptor::data("info1", "dup", BqType::Text, true),
        FieldDescriptor::data("info2", "dup", BqType::Text, true),
        FieldDescriptor::primary_key("row_id", "Id", BqType::Int64),
    ];
    assert!(TableSchema::new("DbInfos", None, fields).is_err());
    // No primary key.
    let fields = vec![
        FieldDescriptor::client("client"),
        FieldDescriptor::data("info1", "info1", BqType::Text, true),
    ];
    assert!(TableSchema::new("DbInfos", None, fields).is_err());
    // Two primary keys.
    let fields = vec![
        FieldDescriptor::client("client"),
        FieldDescriptor::primary_key("id_a", "A", BqType::Int64),
        FieldDescriptor::primary_key("id_b", "B", BqType::Int64),
    ];
    assert!(TableSchema::new("DbInfos", None, fields).is_err());
    // No client field.
    let fields = vec![FieldDescriptor::primary_key("row_id", "Id", BqType::Int64)];
    assert!(TableSchema::new("DbInfos", None, fields).is_err());
    // Table name defaults to the record type's own name.
    let fields = vec![
        FieldDescriptor::client("client"),
        FieldDescriptor::primary_key("row_id", "Id", BqType::Int64),
    ];
    let schema = TableSchema::new("DbInfos", None, fields).unwrap();
    assert_eq!(schema.get_table_name().as_str(), "DbInfos");
}

#[test]
fn record_set_and_get() {
    let mut rec = Record::new(infos_schema());
    assert!(matches!(rec.get_field_value("info1").unwrap(), JsonValue::Null));
    rec.set_field_value("info4b", &JsonValue::Text(String::from("true"))).unwrap();
    match rec.get_field_value("info4b").unwrap() {
        JsonValue::Text(s) => assert_eq!(s.as_str(), "TRUE"),
        other => panic!("unexpected value: {:?}", other),
    }
    rec.set_field_value("info4i", &JsonValue::Text(String::from("41"))).unwrap();
    match rec.get_field_value("info4i").unwrap() {
        JsonValue::Integer(n) => assert_eq!(n, 41),
        other => panic!("unexpected value: {:?}", other),
    }
    assert!(rec.set_field_value("info4i", &JsonValue::Text(String::from("nope"))).is_err());
    assert!(rec.set_field_value("client", &JsonValue::Integer(1)).is_err());
    assert!(rec.set_field_value("row_id", &JsonValue::Null).is_err());
    assert!(rec.get_field_value("client").is_err());
    // The primary-key value, through the schema's marker.
    rec.set_field_value("row_id", &JsonValue::Integer(12)).unwrap();
    assert!(matches!(rec.pk_value(), JsonValue::Integer(12)));
}

#[test]
fn record_from_result_row() {
    let cells = vec![
        JsonValue::Text(String::from("a")),
        JsonValue::Null,
        JsonValue::Text(String::from("c")),
        JsonValue::Text(String::from("false")),
        JsonValue::Null,
        JsonValue::Integer(9),
    ];
    let rec = Record::new_from_query_result_row(infos_schema(), cells).unwrap();
    match rec.get_field_value("info4b").unwrap() {
        JsonValue::Text(s) => assert_eq!(s.as_str(), "FALSE"),
        other => panic!("unexpected value: {:?}", other),
    }
    assert!(matches!(rec.get_field_value("info4i").unwrap(), JsonValue::Null));
    assert!(matches!(rec.get_field_value("row_id").unwrap(), JsonValue::Integer(9)));
    // Missing trailing cells decode as null where the column allows it.
    let tail_nullable = TableSchema::new(
        "Tail",
        None,
        vec![
            FieldDescriptor::primary_key("a_id", "Id", BqType::Int64),
            FieldDescriptor::client("client"),
            FieldDescriptor::data("z_info", "z", BqType::Text, true),
        ],
    )
    .unwrap();
    let rec = Record::new_from_query_result_row(tail_nullable, vec![JsonValue::Integer(1)]).unwrap();
    assert!(matches!(rec.get_field_value("a_id").unwrap(), JsonValue::Integer(1)));
    assert!(matches!(rec.get_field_value("z_info").unwrap(), JsonValue::Null));
    // A missing cell of a non-null column refuses the row.
    assert!(Record::new_from_query_result_row(infos_schema(), vec![JsonValue::Null]).is_err());
    // A row with more cells than columns is refused.
    let too_many = vec![JsonValue::Null; 7];
    assert!(Record::new_from_query_result_row(infos_schema(), too_many).is_err());
    // An unreadable cell is refused.
    let bad = vec![
        JsonValue::Text(String::from("a")),
        JsonValue::Null,
        JsonValue::Null,
        JsonValue::Text(String::from("not a bool")),
    ];
    assert!(Record::new_from_query_result_row(infos_schema(), bad).is_err());
}

#[test]
fn record_update_from() {
    let mut target = Record::new(infos_schema());
    let mut source = Record::new(infos_schema());
    source.set_field_value("info1", &JsonValue::Text(String::from("copied"))).unwrap();
    source.set_field_value("row_id", &JsonValue::Integer(5)).unwrap();
    target.update_from(&source).unwrap();
    match target.get_field_value("info1").unwrap() {
        JsonValue::Text(s) => assert_eq!(s.as_str(), "copied"),
        other => panic!("unexpected value: {:?}", other),
    }
    assert!(matches!(target.get_field_value("row_id").unwrap(), JsonValue::Integer(5)));
}

#[test]
fn parameters_from_values() {
    let p = get_parameter(&5i64, &String::from("__PARAM_0")).unwrap();
    assert_eq!(p.name.as_str(), "__PARAM_0");
    assert_eq!(p.param_type.as_str(), "INT64");
    assert_eq!(p.value.as_deref(), Some("5"));
    let none: Option<String> = None;
    assert!(get_parameter(&none, &String::from("__PARAM_0")).is_none());
    let dt = Datetime { year: 2023, month: 6, day: 7, hour: 8, minute: 9, second: 10 };
    let p = get_parameter(&dt, &String::from("__PARAM_1")).unwrap();
    assert_eq!(p.param_type.as_str(), "DATETIME");
    assert_eq!(p.value.as_deref(), Some("2023-06-07 08:09:10"));
}

#[test]
fn record_all_params() {
    let mut rec = Record::new(infos_schema());
    rec.set_field_value("row_id", &JsonValue::Integer(3)).unwrap();
    rec.set_field_value("info2", &JsonValue::Text(String::from("b"))).unwrap();
    let params = rec.get_all_params();
    assert_eq!(params.len(), 6);
    let named: Vec<Option<String>> = params
        .iter()
        .map(|p| p.as_ref().map(|q| q.name.clone()))
        .collect();
    assert_eq!(
        named,
        vec![
            None,
            Some(String::from("__PARAM_info")),
            None,
            None,
            None,
            Some(String::from("__PARAM_Id"))
        ]
    );
    let one = rec.get_parameter_from_field("info2").unwrap().unwrap();
    assert_eq!(one.value.as_deref(), Some("b"));
    assert!(rec.get_parameter_from_field("info1").unwrap().is_none());
    assert!(rec.get_parameter_from_field("missing").is_err());
}

#[test]
fn field_name_helpers() {
    let schema = infos_schema();
    assert_eq!(schema.get_pk_field_name().as_str(), "row_id");
    assert_eq!(schema.get_pk_db_name().as_str(), "Id");
    assert_eq!(schema.get_field_db_name("info2").unwrap().as_str(), "info");
    assert_eq!(
        schema.get_field_param_name("info2").unwrap().as_str(),
        "__PARAM_info"
    );
    let err = schema.get_field_db_name("nope").unwrap_err();
    assert_eq!(err.message.as_str(), "Field nope not found.");
}
