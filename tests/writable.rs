use influxdb2::{
    DataPoint, DataPointError, FieldValue, FieldsWritable, KeyWritable, PointError, PointSchema,
    Role, SchemaError, TagsWritable, TimestampWritable, ValueWritable,
};

fn float(x: f64) -> FieldValue {
    FieldValue::float(&x.to_string()).unwrap()
}

#[test]
fn value_writable_f64() {
    let a: f64 = 33.33;
    assert_eq!(float(a).encode_value(), "33.33")
}

#[test]
fn value_writable_i64() {
    let a: i64 = 33;
    assert_eq!(a.encode_value(), "33i")
}

#[test]
fn tags_tuple() {
    let a: (&str, &str) = ("33", "str");
    assert_eq!(a.encode_tags(), "33=str");
    let b: (String, &str, &str, &str) = ("ff".to_string(), "aa", "bb", "cc");
    assert_eq!(b.encode_tags(), "ff=aa,bb=cc")
}

#[test]
fn fields_tuple() {
    let a: (&str, u64) = ("ddf", 33);
    assert_eq!(a.encode_fields(), "ddf=33u");
    let a = ("ddf", 33u64, "gg", true);
    assert_eq!(a.encode_fields(), "ddf=33u,gg=t");
    let a = ("ddf", 33u64, "gg", true, "cc", float(44.44f64), "dd", 22i64);
    assert_eq!(a.encode_fields(), "ddf=33u,gg=t,cc=44.44,dd=22i");
}

#[test]
fn value_literals_by_kind() {
    assert_eq!(33u64.encode_value(), "33u");
    assert_eq!((-7i64).encode_value(), "-7i");
    assert_eq!(i64::MIN.encode_value(), "-9223372036854775808i");
    assert_eq!(u64::MAX.encode_value(), "18446744073709551615u");
    assert_eq!(true.encode_value(), "t");
    assert_eq!(false.encode_value(), "f");
    assert_eq!("hello".encode_value(), "\"hello\"");
    assert_eq!(String::from("a\"b\\c").encode_value(), "\"a\\\"b\\\\c\"");
    assert_eq!(FieldValue::UInteger(5).encode_value(), "5u");
    assert_eq!(FieldValue::Str("x".to_string()).encode_value(), "\"x\"");
}

#[test]
fn keys_and_timestamps() {
    assert_eq!(42u64.encode_key(), "42");
    assert_eq!("host".encode_key(), "host");
    assert_eq!(1671095854u64.encode_timestamp(), "1671095854");
    assert_eq!((-5i64).encode_timestamp(), "-5");
}

#[test]
fn float_literals() {
    assert!(FieldValue::float("1.5e10").is_some());
    assert!(FieldValue::float("-.5").is_some());
    assert!(FieldValue::float("inf").is_some());
    assert!(FieldValue::float("NaN").is_some());
    assert!(FieldValue::float("1.").is_some());
    assert!(FieldValue::float(".").is_none());
    assert!(FieldValue::float("1e").is_none());
    assert!(FieldValue::float("abc").is_none());
    assert!(FieldValue::float("").is_none());
}

#[test]
fn point_line_exact() {
    let p = DataPoint::builder("cpu")
        .tag("host", "server01")
        .field("usage", float(0.5))
        .timestamp(1671095854)
        .build()
        .unwrap();
    assert_eq!(p.encode_line(), "cpu,host=server01 usage=0.5 1671095854\n");
}

#[test]
fn point_lines_without_timestamp() {
    let a = DataPoint::builder("cpu")
        .tag("host", "server01")
        .field("usage", float(0.5))
        .build()
        .unwrap();
    let b = DataPoint::builder("cpu")
        .tag("host", "server01")
        .tag("region", "us-west")
        .field("usage", float(0.87))
        .build()
        .unwrap();
    let body = format!("{}{}", a.encode_line(), b.encode_line());
    assert_eq!(body, "cpu,host=server01 usage=0.5\ncpu,host=server01,region=us-west usage=0.87\n");
}

#[test]
fn point_encoding_repeats() {
    let p = DataPoint::builder("m")
        .tag("t", "v")
        .field("a", FieldValue::Integer(1))
        .field("b", FieldValue::Str("s".to_string()))
        .build()
        .unwrap();
    assert_eq!(p.encode_line(), p.encode_line());
    assert_eq!(p.encode_line(), "m,t=v a=1i,b=\"s\"\n");
}

#[test]
fn point_needs_a_field() {
    let r = DataPoint::builder("m").tag("t", "v").build();
    assert_eq!(r.err(), Some(DataPointError::NoFields));
}

fn item_schema() -> PointSchema {
    PointSchema::new(
        "something",
        vec![
            ("name".to_string(), Role::Tag),
            ("name2".to_string(), Role::Tag),
            ("field1".to_string(), Role::Field),
            ("field2".to_string(), Role::Field),
            ("field3".to_string(), Role::Field),
            ("time".to_string(), Role::Timestamp),
        ],
    )
    .unwrap()
}

#[test]
fn schema_mixed_fields() {
    let line = item_schema()
        .encode(&vec![
            Some(FieldValue::Str("foo".to_string())),
            Some(FieldValue::Str("bar".to_string())),
            Some(FieldValue::UInteger(32)),
            Some(FieldValue::Integer(33)),
            Some(FieldValue::Str("hello".to_string())),
            Some(FieldValue::UInteger(222233)),
        ])
        .unwrap();
    assert_eq!(
        line,
        "something,name=foo,name2=bar field1=32u,field2=33i,field3=\"hello\" 222233\n"
    );
}

#[test]
fn schema_absent_values_left_out() {
    let line = item_schema()
        .encode(&vec![
            Some(FieldValue::Str("foo".to_string())),
            Some(FieldValue::Str("bar".to_string())),
            None,
            Some(FieldValue::Integer(33)),
            None,
            Some(FieldValue::UInteger(222222)),
        ])
        .unwrap();
    assert_eq!(line, "something,name=foo,name2=bar field2=33i 222222\n");
    let schema = PointSchema::new(
        "allTagsNone",
        vec![
            ("tag1".to_string(), Role::Tag),
            ("tag2".to_string(), Role::Tag),
            ("field1".to_string(), Role::Field),
            ("time".to_string(), Role::Timestamp),
        ],
    )
    .unwrap();
    let line = schema
        .encode(&vec![None, None, Some(FieldValue::Str("abc".to_string())), Some(FieldValue::UInteger(122222))])
        .unwrap();
    assert_eq!(line, "allTagsNone field1=\"abc\" 122222\n");
}

#[test]
fn schema_rejected_when_built() {
    let no_tag = PointSchema::new(
        "m",
        vec![("f".to_string(), Role::Field), ("t".to_string(), Role::Timestamp)],
    );
    assert_eq!(no_tag.err(), Some(SchemaError::NoTag));
    let no_field = PointSchema::new(
        "m",
        vec![("g".to_string(), Role::Tag), ("t".to_string(), Role::Timestamp)],
    );
    assert_eq!(no_field.err(), Some(SchemaError::NoField));
    let two_stamps = PointSchema::new(
        "m",
        vec![
            ("g".to_string(), Role::Tag),
            ("f".to_string(), Role::Field),
            ("t".to_string(), Role::Timestamp),
            ("u".to_string(), Role::Timestamp),
        ],
    );
    assert_eq!(two_stamps.err(), Some(SchemaError::TimestampCount));
    let no_stamp = PointSchema::new(
        "m",
        vec![("g".to_string(), Role::Tag), ("f".to_string(), Role::Field)],
    );
    assert_eq!(no_stamp.err(), Some(SchemaError::TimestampCount));
}

#[test]
fn schema_record_errors() {
    let s = item_schema();
    assert_eq!(s.encode(&vec![None]).err(), Some(PointError::WidthMismatch));
    let all_absent = vec![
        Some(FieldValue::Str("foo".to_string())),
        None,
        None,
        None,
        None,
        Some(FieldValue::Integer(1)),
    ];
    assert_eq!(s.encode(&all_absent).err(), Some(PointError::NoFieldValue));
    let bad_tag = vec![
        Some(FieldValue::Boolean(true)),
        None,
        Some(FieldValue::Integer(1)),
        None,
        None,
        Some(FieldValue::Integer(1)),
    ];
    assert_eq!(s.encode(&bad_tag).err(), Some(PointError::TagKind));
    let bad_time = vec![
        Some(FieldValue::Str("a".to_string())),
        None,
        Some(FieldValue::Integer(1)),
        None,
        None,
        Some(FieldValue::Str("x".to_string())),
    ];
    assert_eq!(s.encode(&bad_time).err(), Some(PointError::TimestampKind));
}

#[test]
fn schema_unsigned_tag_in_decimal() {
    let s = PointSchema::new(
        "m",
        vec![
            ("id".to_string(), Role::Tag),
            ("skip".to_string(), Role::Ignore),
            ("v".to_string(), Role::Field),
            ("t".to_string(), Role::Timestamp),
        ],
    )
    .unwrap();
    let line = s
        .encode(&vec![
            Some(FieldValue::UInteger(7)),
            Some(FieldValue::Integer(9)),
            Some(FieldValue::Boolean(false)),
            Some(FieldValue::Integer(-3)),
        ])
        .unwrap();
    assert_eq!(line, "m,id=7 v=f -3\n");
}

#[test]
fn large_unsigned_timestamps() {
    let s = item_schema();
    let line = s
        .encode(&vec![
            Some(FieldValue::Str("foo".to_string())),
            None,
            Some(FieldValue::UInteger(1)),
            None,
            None,
            Some(FieldValue::UInteger(u64::MAX)),
        ])
        .unwrap();
    assert_eq!(line, "something,name=foo field1=1u 18446744073709551615\n");
    let p = DataPoint::builder("m")
        .field("v", FieldValue::Boolean(true))
        .timestamp_unsigned(u64::MAX)
        .build()
        .unwrap();
    assert_eq!(p.encode_line(), "m v=t 18446744073709551615\n");
}
