use logship::columns::{
    add_log, add_log_wrap, columns_of_fields, log_from_columns, parse_log_into_columns, AddLogErr,
    Column, ColumnType,
};
use logship::common::log::{Json, ParseLogErr};

fn number_column(key: &str, value: u64) -> Column {
    Column {
        key: key.to_string(),
        column_type: ColumnType::Number,
        value: Json::Number { unsigned: Some(value), text: value.to_string() },
    }
}

fn keys(columns: &Vec<Column>) -> Vec<String> {
    columns.iter().map(|c| c.key.clone()).collect()
}

#[test]
fn flat_object_gives_one_column_per_field() {
    let columns =
        parse_log_into_columns("{\"a\": null, \"b\": true, \"c\": 7, \"d\": \"x\"}".to_string())
            .unwrap();
    assert_eq!(keys(&columns), vec!["a", "b", "c", "d"]);
    assert_eq!(columns[0].column_type, ColumnType::Null);
    assert!(matches!(columns[0].value, Json::Null));
    assert_eq!(columns[1].column_type, ColumnType::Bool);
    assert!(matches!(columns[1].value, Json::Bool(true)));
    assert_eq!(columns[2].column_type, ColumnType::Number);
    match &columns[2].value {
        Json::Number { unsigned, text } => {
            assert_eq!(*unsigned, Some(7));
            assert_eq!(text, "7");
        }
        _ => panic!("c holds a number"),
    }
    assert_eq!(columns[3].column_type, ColumnType::String);
    match &columns[3].value {
        Json::String(text) => assert_eq!(text, "x"),
        _ => panic!("d holds a string"),
    }
}

#[test]
fn column_of_any_number_holds_the_number() {
    let columns =
        parse_log_into_columns("{\"a\": -1, \"b\": 1.5, \"c\": {\"d\": 2e2}}".to_string())
            .unwrap();
    assert_eq!(keys(&columns), vec!["a", "b", "c.d"]);
    let shown: Vec<String> = columns
        .iter()
        .map(|column| match &column.value {
            Json::Number { unsigned: None, text } => text.clone(),
            _ => panic!("each column holds a number that is no unsigned integer"),
        })
        .collect();
    assert_eq!(shown, vec!["-1", "1.5", "200.0"]);
    assert!(columns.iter().all(|column| column.column_type == ColumnType::Number));
}

#[test]
fn nested_objects_follow_breadth_first() {
    let raw = "{\"a\": {\"b\": 1, \"c\": {\"d\": null}}, \"s\": \"x\", \"t\": {\"u\": 2}, \"z\": [1, 2]}";
    let columns = parse_log_into_columns(raw.to_string()).unwrap();
    assert_eq!(keys(&columns), vec!["s", "a.b", "t.u", "a.c.d"]);
    assert_eq!(columns[3].column_type, ColumnType::Null);
}

#[test]
fn arrays_and_empty_objects_give_no_column() {
    let columns = parse_log_into_columns("{\"a\": [], \"b\": {}, \"c\": [{\"d\": 1}]}".to_string())
        .unwrap();
    assert!(columns.is_empty());
    assert!(parse_log_into_columns("{}".to_string()).unwrap().is_empty());
}

#[test]
fn payload_that_is_no_object_has_no_columns() {
    assert!(matches!(
        parse_log_into_columns("[1,2,3]".to_string()),
        Err(ParseLogErr::NotAnObject)
    ));
    assert!(matches!(parse_log_into_columns("7".to_string()), Err(ParseLogErr::NotAnObject)));
    match parse_log_into_columns("{\"a\"".to_string()) {
        Err(ParseLogErr::ParseError { log, error }) => {
            assert_eq!(log, "{\"a\"");
            assert!(!error.is_empty());
        }
        _ => panic!("a truncated payload has no columns"),
    }
}

#[test]
fn fields_are_spread_in_the_order_given() {
    let fields = vec![
        ("z".to_string(), Json::Number { unsigned: None, text: "-2".to_string() }),
        (
            "m".to_string(),
            Json::Object(vec![
                ("y".to_string(), Json::Bool(false)),
                ("x".to_string(), Json::Object(vec![("w".to_string(), Json::Null)])),
            ]),
        ),
        ("a".to_string(), Json::Array(vec![Json::Null])),
        ("b".to_string(), Json::String("s".to_string())),
    ];
    let columns = columns_of_fields(fields);
    assert_eq!(keys(&columns), vec!["z", "b", "m.y", "m.x.w"]);
    assert_eq!(columns[0].column_type, ColumnType::Number);
    assert_eq!(columns[2].column_type, ColumnType::Bool);
}

#[test]
fn add_log_reads_the_time_column() {
    let log =
        add_log("{\"msg\": \"a\", \"time\": 1665622800655}".to_string(), "gid-7".to_string())
            .unwrap();
    assert_eq!(log.time, 1665622800655);
    assert_eq!(keys(&log.columns), vec!["msg", "time"]);
    assert_eq!(log.gid, "gid-7");
    let other = add_log("{\"time\": 1}".to_string(), xid::new().to_string()).unwrap();
    assert_eq!(other.gid.len(), 20);
    assert_ne!(log.gid, other.gid);
}

#[test]
fn add_log_names_what_is_wrong_with_time() {
    let missing = add_log("{\"msg\": \"a\"}".to_string(), "g".to_string()).unwrap_err();
    assert_eq!(missing.message, "'time' column is missing");
    let nested = add_log("{\"a\": {\"time\": 1}}".to_string(), "g".to_string()).unwrap_err();
    assert_eq!(nested.message, "'time' column is missing");
    let object = add_log("{\"time\": {\"x\": 1}}".to_string(), "g".to_string()).unwrap_err();
    assert_eq!(object.message, "'time' column is missing");
    let text = add_log("{\"time\": \"abc\"}".to_string(), "g".to_string()).unwrap_err();
    assert_eq!(text.message, "'time' column has wrong format");
    let negative = add_log("{\"time\": -4}".to_string(), "g".to_string()).unwrap_err();
    assert_eq!(negative.message, "'time' column has wrong format");
}

#[test]
fn add_log_turns_away_what_is_no_object() {
    let array = add_log("[1,2,3]".to_string(), "g".to_string()).unwrap_err();
    assert_eq!(array.message, "Payload is not an object");
    let broken = add_log("{".to_string(), "g".to_string()).unwrap_err();
    assert!(broken.message.starts_with("Could not parse json. Log: '\"{\"'. Error: '"));
}

#[test]
fn log_from_columns_takes_the_first_time_column() {
    let columns = vec![number_column("a.time", 1), number_column("time", 2), number_column("time", 3)];
    let log = log_from_columns(columns, "gid-1".to_string()).unwrap();
    assert_eq!(log.time, 2);
    assert_eq!(log.gid, "gid-1");
    assert_eq!(log.columns.len(), 3);
    assert!(log_from_columns(Vec::new(), "g".to_string()).is_err());
}

#[test]
fn response_tells_acceptance_from_refusal() {
    let accepted = add_log("{\"time\": 1}".to_string(), "g".to_string());
    assert_eq!(add_log_wrap(&accepted), (200, String::new()));
    let refused = Err(AddLogErr { message: "'time' column is missing".to_string() });
    assert_eq!(add_log_wrap(&refused), (400, "'time' column is missing".to_string()));
}
