use influxdb2::{
    bool_from_lowercase, collect_records, encode_cell, parse_value, project, DataType,
    DecodeError, FluxRecord, GenericMap, MappingError, QueryResult, QueryTableIter,
    QueryTableResult, TaskStatusType, TimestampPrecision, Value, ValueKind,
};

const EXAMPLE: &str = "#datatype,string,long,dateTime:RFC3339,dateTime:RFC3339,dateTime:RFC3339,double,string,string,string,string
#group,false,false,true,true,false,false,true,true,true,true
#default,_result,,,,,,,,,
,result,table,_start,_stop,_time,_value,_field,_measurement,a,b
";

fn map_of(pairs: Vec<(&str, Value)>) -> GenericMap {
    let mut m = GenericMap::new();
    for (k, v) in pairs {
        m.insert(k.to_string(), v);
    }
    m
}

fn s(x: &str) -> Value {
    Value::String(x.to_string())
}

fn time(x: &str) -> Value {
    parse_value(x, DataType::TimeRFC, "_time").unwrap()
}

#[test]
fn test_query_table_result() {
    let text = "#datatype,string,long,dateTime:RFC3339,dateTime:RFC3339,dateTime:RFC3339,double,string,string,string,string
#group,false,false,true,true,false,false,true,true,true,true
#default,_result,,,,,,,,,
,result,table,_start,_stop,_time,_value,_field,_measurement,a,b
,,0,2020-02-17T22:19:49.747562847Z,2020-02-18T22:19:49.747562847Z,2020-02-18T10:34:08.135814545Z,1.4,f,test,1,adsfasdf
,,0,2020-02-17T22:19:49.747562847Z,2020-02-18T22:19:49.747562847Z,2020-02-18T22:08:44.850214724Z,6.6,f,test,1,adsfasdf
";
    let mut qtr = QueryTableResult::new(text);
    let expected: [FluxRecord; 2] = [
        FluxRecord {
            table: 0,
            values: map_of(vec![
                ("result", s("_result")),
                ("table", Value::Long(0)),
                ("_start", time("2020-02-17T22:19:49.747562847Z")),
                ("_stop", time("2020-02-18T22:19:49.747562847Z")),
                ("_time", time("2020-02-18T10:34:08.135814545Z")),
                ("_field", s("f")),
                ("_measurement", s("test")),
                ("_value", Value::Double("1.4".to_string())),
                ("a", s("1")),
                ("b", s("adsfasdf")),
            ]),
        },
        FluxRecord {
            table: 0,
            values: map_of(vec![
                ("result", s("_result")),
                ("table", Value::Long(0)),
                ("_start", time("2020-02-17T22:19:49.747562847Z")),
                ("_stop", time("2020-02-18T22:19:49.747562847Z")),
                ("_time", time("2020-02-18T22:08:44.850214724Z")),
                ("_field", s("f")),
                ("_measurement", s("test")),
                ("_value", Value::Double("6.6".to_string())),
                ("a", s("1")),
                ("b", s("adsfasdf")),
            ]),
        },
    ];
    let mut i = 0;
    loop {
        match qtr.next() {
            Ok(Some(record)) => {
                assert_eq!(record, expected[i]);
                i += 1;
            }
            Ok(None) => break,
            Err(e) => {
                assert_eq!(e.message(), "");
                break;
            }
        }
    }
    assert_eq!(i, 2);
}

#[test]
fn timestamps_are_read_exactly() {
    let t = time("2020-02-17T22:19:49.747562847Z");
    match t {
        Value::TimeRFC(ts) => {
            assert_eq!(ts.seconds, 1581977989);
            assert_eq!(ts.nanos, 747562847);
            assert_eq!(ts.offset_seconds, 0);
        }
        _ => panic!("not a timestamp"),
    }
    match time("2020-02-17T23:19:49+01:00") {
        Value::TimeRFC(ts) => {
            assert_eq!(ts.seconds, 1581977989);
            assert_eq!(ts.offset_seconds, 3600);
        }
        _ => panic!("not a timestamp"),
    }
    assert!(parse_value("2020-02-17", DataType::TimeRFC, "_time").is_err());
}

#[test]
fn grouping_merges_fields_of_one_key() {
    let text = format!(
        "{EXAMPLE},,0,2020-02-17T22:19:49.747562847Z,2020-02-18T22:19:49.747562847Z,2020-02-18T10:34:08.135814545Z,1.4,f,test,1,adsfasdf
,,1,2020-02-17T22:19:49.747562847Z,2020-02-18T22:19:49.747562847Z,2020-02-18T10:34:08.135814545Z,2.5,g,test,1,adsfasdf
"
    );
    let q = QueryResult::new(&text).unwrap();
    assert_eq!(q.items.len(), 1);
    let item = &q.items[0];
    assert_eq!(item.get(&"f".to_string()), Some(&Value::Double("1.4".to_string())));
    assert_eq!(item.get(&"g".to_string()), Some(&Value::Double("2.5".to_string())));
    assert_eq!(item.get(&"b".to_string()), Some(&s("adsfasdf")));
}

#[test]
fn grouping_keeps_first_seen_order() {
    let text = format!(
        "{EXAMPLE},,0,2020-02-17T22:19:49.747562847Z,2020-02-18T22:19:49.747562847Z,2020-02-18T10:34:08.135814545Z,1.4,f,test,1,zzz
,,0,2020-02-17T22:19:49.747562847Z,2020-02-18T22:19:49.747562847Z,2020-02-18T10:34:08.135814545Z,1.5,f,test,1,aaa
,,1,2020-02-17T22:19:49.747562847Z,2020-02-18T22:19:49.747562847Z,2020-02-18T10:34:08.135814545Z,7,g,test,1,zzz
"
    );
    let q = QueryResult::new(&text).unwrap();
    assert_eq!(q.items.len(), 2);
    assert_eq!(q.items[0].get(&"b".to_string()), Some(&s("zzz")));
    assert_eq!(q.items[0].get(&"g".to_string()), Some(&Value::Double("7".to_string())));
    assert_eq!(q.items[1].get(&"b".to_string()), Some(&s("aaa")));
    assert_eq!(q.items[1].get(&"g".to_string()), None);
}

#[test]
fn grouping_needs_field_columns() {
    let text = "#datatype,string,long\n,a,b\n,x,1\n";
    assert!(matches!(QueryResult::new(text), Err(DecodeError::MissingFieldColumn)));
}

#[test]
fn error_table_fails_with_message() {
    let text = "#datatype,string,string\n#group,true,true\n#default,,\n,error,reference\n,some message,ref123\n";
    let e = collect_records(text).unwrap_err();
    assert_eq!(e.message(), "some message,ref123");
    let text = "#datatype,string,string\n,error,reference\n,,\n";
    assert_eq!(collect_records(text).unwrap_err().message(), "unknown query error");
    let text = "#datatype,string,string,string\n,error,reference,extra\n,,some message,ref123\n";
    assert_eq!(
        collect_records(text).unwrap_err().message(),
        "unknown query error,some message"
    );
}

#[test]
fn width_mismatch_is_an_error() {
    let text = "#datatype,string,long\n,a,b\n,x,1,extra\n";
    match collect_records(text) {
        Err(DecodeError::ColumnCountMismatch { row, table }) => {
            assert_eq!(row, 3);
            assert_eq!(table, 2);
        }
        other => panic!("unexpected {:?}", other),
    }
    let text = "#datatype,string,long\n,a,b\n,x\n";
    assert!(matches!(
        collect_records(text),
        Err(DecodeError::ColumnCountMismatch { row: 1, table: 2 })
    ));
}

#[test]
fn decode_error_variants() {
    assert!(matches!(collect_records(",a,b\n"), Err(DecodeError::AnnotationsNotFound)));
    assert!(matches!(
        collect_records("#group,true,true\n,a,b\n"),
        Err(DecodeError::MalformedAnnotation)
    ));
    match collect_records("#datatype,string,wat\n,a,b\n") {
        Err(DecodeError::UnknownDataType { token }) => assert_eq!(token, "wat"),
        other => panic!("unexpected {:?}", other),
    }
    match collect_records("#datatype,string,long\n,a,b\nx,1,2\n") {
        Err(e) => assert_eq!(e.message(), "invalid first cell: x"),
        other => panic!("unexpected {:?}", other),
    }
    match collect_records("#datatype,string,long\n,a,b\n,x,abc\n") {
        Err(DecodeError::ValueParseFailure { data_type, column, cell }) => {
            assert_eq!(data_type, DataType::Long);
            assert_eq!(column, "b");
            assert_eq!(cell, "abc");
        }
        other => panic!("unexpected {:?}", other),
    }
    assert!(matches!(
        collect_records("#datatype,string,long\n#group,true,true\n"),
        Err(DecodeError::MalformedAnnotation)
    ));
    let e = collect_records("#datatype,string,long\n,a,b\n,x,1,2\n").unwrap_err();
    assert_eq!(e.message(), "row has different number of columns than the table: 3 vs 2");
}

#[test]
fn tables_count_up_and_defaults_fill() {
    let text = "#datatype,string,long\n#default,dflt,\n,a,b\n,,1\n\n#datatype,long,string\n,c,d\n,5,z\n";
    let records = collect_records(text).unwrap();
    assert_eq!(records.len(), 2);
    assert_eq!(records[0].table, 0);
    assert_eq!(records[0].values.get(&"a".to_string()), Some(&s("dflt")));
    assert_eq!(records[1].table, 1);
    assert_eq!(records[1].values.get(&"c".to_string()), Some(&Value::Long(5)));
}

#[test]
fn duplicate_column_last_wins() {
    let records = collect_records("#datatype,string,string\n,a,a\n,x,y\n").unwrap();
    assert_eq!(records[0].values.get(&"a".to_string()), Some(&s("y")));
}

#[test]
fn quoted_cells_keep_commas() {
    let records = collect_records("#datatype,string,long\n,a,b\n,\"x,y\",3\n").unwrap();
    assert_eq!(records[0].values.get(&"a".to_string()), Some(&s("x,y")));
}

#[test]
fn empty_response() {
    assert!(QueryTableIter::new(String::new()).is_empty());
    assert!(!QueryTableIter::new(format!("{EXAMPLE},,0,2020-02-17T22:19:49.747562847Z,2020-02-18T22:19:49.747562847Z,2020-02-18T10:34:08.135814545Z,1.4,f,test,1,x\n")).is_empty());
    let iter = QueryTableIter::new("#datatype,long\n,n\n,4\n".to_string());
    let mut first = iter.result();
    let mut second = iter.result();
    assert_eq!(first.next().unwrap().unwrap().values.get(&"n".to_string()), Some(&Value::Long(4)));
    assert_eq!(second.next().unwrap().unwrap().values.get(&"n".to_string()), Some(&Value::Long(4)));
    assert!(first.next().unwrap().is_none());
}

#[test]
fn cell_round_trips() {
    for (cell, t) in [
        ("12.34", DataType::Double),
        ("33", DataType::Long),
        ("-33", DataType::Long),
        ("33", DataType::UnsignedLong),
        ("hello", DataType::String),
        ("true", DataType::Bool),
        ("false", DataType::Bool),
        ("aGVsbG8=", DataType::Base64Binary),
    ] {
        let v = parse_value(cell, t, "c").unwrap();
        assert_eq!(encode_cell(&v).unwrap(), cell);
    }
    assert_eq!(parse_value("12.34", DataType::Double, "c").unwrap(), Value::Double("12.34".to_string()));
    assert_eq!(parse_value("33", DataType::Long, "c").unwrap(), Value::Long(33));
    assert_eq!(parse_value("+33", DataType::UnsignedLong, "c").unwrap(), Value::UnsignedLong(33));
    assert_eq!(
        parse_value("-9223372036854775808", DataType::Long, "c").unwrap(),
        Value::Long(i64::MIN)
    );
    assert!(parse_value("9223372036854775808", DataType::Long, "c").is_err());
    assert!(parse_value("-1", DataType::UnsignedLong, "c").is_err());
    assert!(parse_value("1.2.3", DataType::Double, "c").is_err());
}

#[test]
fn booleans_only_false_is_false() {
    assert_eq!(parse_value("FALSE", DataType::Bool, "c").unwrap(), Value::Bool(false));
    assert_eq!(parse_value("False", DataType::Bool, "c").unwrap(), Value::Bool(false));
    assert_eq!(parse_value("no", DataType::Bool, "c").unwrap(), Value::Bool(true));
    assert_eq!(parse_value("", DataType::Bool, "c").unwrap(), Value::Bool(true));
    assert!(!bool_from_lowercase("false"));
    assert!(bool_from_lowercase("FALSE"));
}

#[test]
fn base64_cells() {
    assert_eq!(
        parse_value("aGVsbG8=", DataType::Base64Binary, "c").unwrap(),
        Value::Base64Binary(b"hello".to_vec())
    );
    assert!(parse_value("!!!", DataType::Base64Binary, "c").is_err());
    assert_eq!(encode_cell(&Value::Base64Binary(vec![0, 255])).unwrap(), "AP8=");
}

#[test]
fn duration_cells() {
    assert_eq!(
        parse_value("1h30m", DataType::Duration, "d").unwrap(),
        Value::Duration(5_400_000_000_000)
    );
    assert_eq!(parse_value("-1.5s", DataType::Duration, "d").unwrap(), Value::Duration(-1_500_000_000));
    assert_eq!(parse_value("0", DataType::Duration, "d").unwrap(), Value::Duration(0));
    match parse_value("5x", DataType::Duration, "d") {
        Err(e) => assert_eq!(e.message(), "invalid duration: 5x, name: d"),
        other => panic!("unexpected {:?}", other),
    }
    assert!(parse_value("1µs", DataType::Duration, "d").is_err());
    assert!(parse_value("1.00000000000000000000001s", DataType::Duration, "d").is_err());
}

#[test]
fn data_type_tokens() {
    assert_eq!(DataType::from_token("dateTime:RFC3339Nano").unwrap(), DataType::TimeRFC);
    assert_eq!(DataType::from_token("unsignedLong").unwrap(), DataType::UnsignedLong);
    assert!(DataType::from_token("Long").is_err());
}

#[test]
fn projection_probes_underscore_names() {
    let m = map_of(vec![("_value", Value::Double("1.5".to_string())), ("ticker", s("AAPL"))]);
    let schema = vec![
        ("ticker".to_string(), ValueKind::String),
        ("value".to_string(), ValueKind::Double),
    ];
    let out = project(&m, &schema).unwrap();
    assert_eq!(out, vec![s("AAPL"), Value::Double("1.5".to_string())]);
    match project(&m, &vec![("price".to_string(), ValueKind::Double)]) {
        Err(MappingError::Missing { key }) => assert_eq!(key, "_price"),
        other => panic!("unexpected {:?}", other),
    }
    match project(&m, &vec![("ticker".to_string(), ValueKind::Long)]) {
        Err(MappingError::WrongType { key }) => assert_eq!(key, "ticker"),
        other => panic!("unexpected {:?}", other),
    }
}

#[test]
fn generic_map_equality_ignores_order() {
    let a = map_of(vec![("x", Value::Long(1)), ("y", Value::Bool(true))]);
    let b = map_of(vec![("y", Value::Bool(true)), ("x", Value::Long(1))]);
    let c = map_of(vec![("y", Value::Bool(true)), ("x", Value::Long(2))]);
    assert_eq!(a, b);
    assert_ne!(a, c);
    assert!(a.contains_key(&"x".to_string()));
    assert_eq!(a.without(&"x".to_string()), map_of(vec![("y", Value::Bool(true))]));
}

#[test]
fn serialize_task_status_type() {
    let v = format!("\"{}\"", TaskStatusType::Active.api_name());
    assert_eq!(v, "\"active\"");
    let v = format!("\"{}\"", TaskStatusType::Inactive.api_name());
    assert_eq!(v, "\"inactive\"");
}

#[test]
fn precision_short_names() {
    assert_eq!(TimestampPrecision::Seconds.api_short_name(), "s");
    assert_eq!(TimestampPrecision::Milliseconds.api_short_name(), "ms");
    assert_eq!(TimestampPrecision::Microseconds.api_short_name(), "us");
    assert_eq!(TimestampPrecision::Nanoseconds.api_short_name(), "ns");
}

#[test]
fn each_table_needs_its_datatype_row() {
    let text = "#datatype,string\n,a\n#group,true\n,b\n,x\n";
    assert!(matches!(collect_records(text), Err(DecodeError::MalformedAnnotation)));
}

#[test]
fn schema_query_text() {
    let q = influxdb2::schema_query("measurementTagValues", "b", Some("m"), Some("t"), Some("-1d"), None);
    assert_eq!(
        q,
        "import \"influxdata/influxdb/schema\"\n\n            schema.measurementTagValues(bucket: \"b\", measurement: \"m\", tag: \"t\", start: -1d)"
    );
    let q = influxdb2::schema_query("measurements", "b", None, None, None, Some("now()"));
    assert_eq!(
        q,
        "import \"influxdata/influxdb/schema\"\n\n            schema.measurements(bucket: \"b\", stop: now())"
    );
}

#[test]
fn schema_answer_values() {
    let text = "#datatype,string,long,string\n#group,false,false,false\n#default,_result,,\n,result,table,_value\n,,0,cpu\n,,0,mem\n";
    assert_eq!(influxdb2::schema_values(text), vec!["cpu".to_string(), "mem".to_string()]);
}

#[test]
fn long_durations_in_one_unit() {
    assert_eq!(
        parse_value("86400000000000ns", DataType::Duration, "d").unwrap(),
        Value::Duration(86_400_000_000_000)
    );
    assert_eq!(
        parse_value("4611686018427387904ns", DataType::Duration, "d").unwrap_err().message(),
        "invalid duration: 4611686018427387904ns, name: d"
    );
    assert!(parse_value("1000000000000ns1ns", DataType::Duration, "d").is_err());
    assert_eq!(
        parse_value("1000000000ns1ns", DataType::Duration, "d").unwrap(),
        Value::Duration(1_000_000_001)
    );
}

#[test]
fn value_error_messages_by_type() {
    assert_eq!(
        parse_value("abc", DataType::Duration, "col").unwrap_err().message(),
        "invalid duration: abc, name: col"
    );
    assert_eq!(
        parse_value("abc", DataType::Long, "col").unwrap_err().message(),
        "invalid value: abc, name: col"
    );
}

#[test]
fn end_inside_annotation_is_malformed() {
    let mut r = QueryTableResult::new("#datatype,string,string\n#group,false,false\n");
    assert!(matches!(r.next(), Err(DecodeError::MalformedAnnotation)));
    assert!(matches!(r.next(), Ok(None)));
}

#[test]
fn timestamps_equal_by_instant() {
    assert_eq!(time("2020-02-17T22:19:49Z"), time("2020-02-17T23:19:49+01:00"));
    assert_ne!(time("2020-02-17T22:19:49Z"), time("2020-02-17T22:19:49+01:00"));
}

#[test]
fn generic_map_entries() {
    let mut m = map_of(vec![("x", Value::Long(1)), ("y", Value::Bool(true))]);
    m.insert("x".to_string(), Value::Long(3));
    let e = m.entries();
    assert_eq!(e, vec![("x".to_string(), Value::Long(3)), ("y".to_string(), Value::Bool(true))]);
}
