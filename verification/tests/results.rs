use rust_sql::table::FloatValue;
use rust_sql::{Column, Dataframe, Query, QueryResult, Row, Value, ValueType};

fn column(name: &str, value_type: ValueType) -> Column {
    Column { name: name.to_string(), value_type }
}

#[test]
fn dataframe_accepts_rows_of_column_width() {
    let columns = vec![column("id", ValueType::Int), column("name", ValueType::String)];
    let rows = vec![
        Row::from_values(vec![Value::Int(1), Value::String("a".to_string())]),
        Row::from_values(vec![Value::Int(2), Value::Null]),
    ];
    let df = Dataframe::new(columns, rows).expect("rows fit");
    assert_eq!(df.columns().len(), 2);
    assert_eq!(df.columns()[1].name, "name");
    assert_eq!(df.rows().len(), 2);
    assert!(matches!(df.rows()[1].values()[1], Value::Null));
}

#[test]
fn dataframe_refuses_row_of_other_width() {
    let columns = vec![column("id", ValueType::Int)];
    let rows = vec![
        Row::from_values(vec![Value::Int(1)]),
        Row::from_values(vec![Value::Int(2), Value::Bool(true)]),
    ];
    let err = Dataframe::new(columns, rows).unwrap_err();
    assert_eq!(err.message, "Mismatch rows size");
}

#[test]
fn dataframe_of_no_rows() {
    let df = Dataframe::new(vec![column("x", ValueType::Bytes)], Vec::new()).unwrap();
    assert_eq!(df.rows().len(), 0);
    assert_eq!(df.columns()[0].value_type, ValueType::Bytes);
}

#[test]
fn row_size_and_values() {
    let row = Row::from_values(vec![
        Value::UInt(7),
        Value::Bytes(vec![1, 2]),
        Value::Float(FloatValue::Text("3.14".to_string())),
    ]);
    assert_eq!(row.size(), 3);
    assert!(matches!(row.values()[0], Value::UInt(7)));
    match &row.values()[1] {
        Value::Bytes(b) => assert_eq!(b, &vec![1u8, 2]),
        other => panic!("unexpected {:?}", other),
    }
}

#[test]
fn value_type_names() {
    assert_eq!(ValueType::Int.name(), "Int");
    assert_eq!(ValueType::UInt.name(), "UInt");
    assert_eq!(ValueType::Float.name(), "Float");
    assert_eq!(ValueType::String.name(), "String");
    assert_eq!(ValueType::Bytes.name(), "Bytes");
    assert_eq!(ValueType::Bool.name(), "Bool");
}

#[test]
fn query_keeps_its_text() {
    let q = Query::new("SELECT 1;");
    assert_eq!(q.sql(), "SELECT 1;");
}

#[test]
fn query_result_collects_columns_and_rows() {
    let mut r = QueryResult::new();
    assert_eq!(r.columns().len(), 0);
    assert_eq!(r.rows().len(), 0);
    r.set_columns(vec![column("a", ValueType::Bool)]);
    r.add_row(Row::from_values(vec![Value::Bool(true)]));
    r.add_row(Row::from_values(vec![Value::Bool(false)]));
    assert_eq!(r.columns().len(), 1);
    assert_eq!(r.rows().len(), 2);
    let df = r.dataframe().unwrap();
    assert_eq!(df.rows().len(), 2);
}

#[test]
fn query_result_dataframe_mismatch() {
    let mut r = QueryResult::default();
    r.set_columns(vec![column("a", ValueType::Bool), column("b", ValueType::Int)]);
    r.add_row(Row::from_values(vec![Value::Bool(true)]));
    assert_eq!(r.dataframe().unwrap_err().message, "Mismatch rows size");
}

#[test]
fn value_texts() {
    assert_eq!(Value::Null.text().unwrap(), "NULL");
    assert_eq!(Value::Int(-42).text().unwrap(), "-42");
    assert_eq!(Value::Int(i64::MIN).text().unwrap(), i64::MIN.to_string());
    assert_eq!(Value::Int(7).text().unwrap(), "7");
    assert_eq!(Value::UInt(u64::MAX).text().unwrap(), u64::MAX.to_string());
    assert_eq!(Value::String("hi".to_string()).text().unwrap(), "hi");
    assert_eq!(Value::Bytes(vec![1, 2]).text().unwrap(), "[1, 2]");
    assert_eq!(Value::Bool(true).text().unwrap(), "true");
    assert_eq!(Value::Bool(false).text().unwrap(), "false");
    assert!(Value::Float(FloatValue::Double(0)).text().is_none());
}

#[test]
fn row_and_header_texts() {
    let row = Row::from_values(vec![Value::Int(1), Value::Null, Value::String("x".to_string())]);
    assert_eq!(row.text().unwrap(), "1 | NULL | x");
    assert_eq!(Row::from_values(Vec::new()).text().unwrap(), "");
    let with_float = Row::from_values(vec![Value::Int(1), Value::Float(FloatValue::Single(0))]);
    assert!(with_float.text().is_none());
    let df = Dataframe::new(
        vec![column("id", ValueType::Int), column("name", ValueType::String)],
        vec![row_of_two()],
    )
    .unwrap();
    assert_eq!(df.header(), "id | name");
    assert_eq!(df.columns()[0].text(), "id");
    assert_eq!(rust_sql::table::join_cells(&["a".to_string()]), "a");
    assert_eq!(rust_sql::table::join_cells(&[]), "");
}

fn row_of_two() -> Row {
    Row::from_values(vec![Value::Int(1), Value::String("a".to_string())])
}
