//! Cells to values and back.

use vstd::prelude::*;
use crate::error::DecodeError;
use crate::text::{
    decimal_text, float_literal, i64_of_text, int_text, is_digit, is_float_literal, parse_i64,
    parse_u64, push_i64, push_u64, text_is, u64_of_text,
};
use crate::value::{DataType, Timestamp, Value, ValueModel};

verus! {

/// What base64 decoding (standard alphabet, with padding) yields, if the
/// text is valid.
pub uninterp spec fn base64_decoded(s: Seq<char>) -> Option<Seq<u8>>;

/// The base64 text (standard alphabet, with padding) of some bytes.
pub uninterp spec fn base64_text(b: Seq<u8>) -> Seq<char>;

/// The nanoseconds that a Go-style duration text denotes, if it is one.
pub uninterp spec fn go_duration_nanos(s: Seq<char>) -> Option<i64>;

/// Seconds since the epoch, sub-second nanoseconds and offset in seconds
/// of an RFC 3339 timestamp, if the text is one.
pub uninterp spec fn rfc3339_instant(s: Seq<char>) -> Option<(i64, u32, i32)>;

/// The Unicode lowercase of a text.
pub uninterp spec fn lower_of(s: Seq<char>) -> Seq<char>;

/// Relies on `base64::decode`: the bytes that standard base64 text
/// denotes, or an error where the text is not valid base64.
#[verifier::external_body]
fn decode_base64(s: &str) -> (r: Option<Vec<u8>>)
    ensures
        match r {
            Some(b) => base64_decoded(s@) == Some(b@),
            None => base64_decoded(s@).is_none(),
        },
{
    base64::decode(s).ok()
}

/// Relies on `base64::encode`: the standard base64 text of the bytes.
#[verifier::external_body]
fn encode_base64(b: &Vec<u8>) -> (r: String)
    ensures
        r@ == base64_text(b@),
{
    base64::encode(b)
}

/// Relies on `DateTime::<FixedOffset>::parse_from_rfc3339` of chrono: the
/// instant and offset of an RFC 3339 text, or an error.
#[verifier::external_body]
fn parse_rfc3339(s: &str) -> (r: Option<Timestamp>)
    ensures
        match r {
            Some(t) => rfc3339_instant(s@) == Some((t.seconds, t.nanos, t.offset_seconds)),
            None => rfc3339_instant(s@).is_none(),
        },
{
    match chrono::DateTime::parse_from_rfc3339(s) {
        Ok(t) => Some(
            Timestamp {
                seconds: t.timestamp(),
                nanos: t.timestamp_subsec_nanos(),
                offset_seconds: t.offset().local_minus_utc(),
            },
        ),
        Err(_) => None,
    }
}

/// A duration text that `go_parse_duration::parse_duration` handles without
/// looping, panicking or overflowing: ASCII only (it indexes units by byte),
/// and either at most 13 digits, or at most 18 digits in a single number
/// and unit. More digits in a fraction never end; several numbers whose
/// values add up past `i64` overflow.
pub open spec fn duration_in_reach(s: Seq<char>) -> bool {
    &&& forall|i: int| 0 <= i < s.len() ==> (#[trigger] s[i] as u32) < 128
    &&& (digit_count(s) <= 13 || (digit_count(s) <= 18 && !restarts(s)))
}

pub open spec fn is_number_char(c: char) -> bool {
    is_digit(c) || c == '.'
}

/// Whether a number starts again after a unit: a digit or `.` right after a
/// character that is none of digit, `.`, `+` and `-`.
pub open spec fn restarts(s: Seq<char>) -> bool
    decreases s.len(),
{
    if s.len() < 2 {
        false
    } else {
        restarts(s.drop_last()) || (is_number_char(s.last()) && !is_number_char(s[s.len() - 2])
            && s[s.len() - 2] != '+' && s[s.len() - 2] != '-')
    }
}

pub open spec fn digit_count(s: Seq<char>) -> nat
    decreases s.len(),
{
    if s.len() == 0 {
        0
    } else {
        digit_count(s.drop_last()) + if is_digit(s.last()) { 1nat } else { 0nat }
    }
}

/// Relies on `go_parse_duration::parse_duration`: the nanoseconds of a
/// Go-style duration text, or an error.
#[verifier::external_body]
fn parse_go_duration(s: &str) -> (r: Option<i64>)
    requires
        duration_in_reach(s@),
    ensures
        r == go_duration_nanos(s@),
{
    go_parse_duration::parse_duration(s).ok()
}

/// Relies on `str::to_lowercase`.
#[verifier::external_body]
fn lowercase(s: &str) -> (r: String)
    ensures
        r@ == lower_of(s@),
{
    s.to_lowercase()
}

fn in_duration_reach(s: &str) -> (r: bool)
    ensures
        r == duration_in_reach(s@),
{
    let n = s.unicode_len();
    let mut digits: usize = 0;
    let mut again = false;
    let mut i: usize = 0;
    while i < n
        invariant
            n == s@.len(),
            i <= n,
            forall|j: int| 0 <= j < i ==> (#[trigger] s@[j] as u32) < 128,
            digits == digit_count(s@.subrange(0, i as int)),
            again == restarts(s@.subrange(0, i as int)),
            digits <= 18,
        decreases n - i,
    {
        let c = s.get_char(i);
        if c as u32 >= 128 {
            return false;
        }
        let ghost pre = s@.subrange(0, i + 1);
        assert(pre.drop_last() =~= s@.subrange(0, i as int));
        assert(pre.last() == c);
        if i > 0 {
            let b = s.get_char(i - 1);
            assert(pre[pre.len() - 2] == b);
            let num_c = ('0' <= c && c <= '9') || c == '.';
            let num_b = ('0' <= b && b <= '9') || b == '.';
            if num_c && !num_b && b != '+' && b != '-' {
                again = true;
            }
        }
        if '0' <= c && c <= '9' {
            if digits == 18 {
                proof { lemma_digit_count_grows(s@, i + 1); }
                assert(s@.subrange(0, n as int) =~= s@);
                return false;
            }
            digits = digits + 1;
        }
        i = i + 1;
    }
    assert(s@.subrange(0, n as int) =~= s@);
    digits <= 13 || !again
}

proof fn lemma_digit_count_grows(s: Seq<char>, i: int)
    requires
        0 <= i <= s.len(),
    ensures
        digit_count(s.subrange(0, i)) <= digit_count(s),
    decreases s.len() - i,
{
    if i < s.len() {
        lemma_digit_count_grows(s, i + 1);
        assert(s.subrange(0, i + 1).drop_last() =~= s.subrange(0, i));
    } else {
        assert(s.subrange(0, i) =~= s);
    }
}

/// The `DataType` that an annotation token names.
pub open spec fn data_type_of(s: Seq<char>) -> Option<DataType> {
    if s == "string"@ {
        Some(DataType::String)
    } else if s == "double"@ {
        Some(DataType::Double)
    } else if s == "boolean"@ {
        Some(DataType::Bool)
    } else if s == "long"@ {
        Some(DataType::Long)
    } else if s == "unsignedLong"@ {
        Some(DataType::UnsignedLong)
    } else if s == "duration"@ {
        Some(DataType::Duration)
    } else if s == "base64Binary"@ {
        Some(DataType::Base64Binary)
    } else if s == "dateTime:RFC3339"@ || s == "dateTime:RFC3339Nano"@ {
        Some(DataType::TimeRFC)
    } else {
        None
    }
}

impl DataType {
    /// Reads a `#datatype` annotation token.
    pub fn from_token(s: &str) -> (r: Result<DataType, DecodeError>)
        ensures
            match r {
                Ok(t) => data_type_of(s@) == Some(t),
                Err(e) => data_type_of(s@).is_none() && e@ == (
                crate::error::DecodeErrorModel::UnknownDataType { token: s@ }),
            },
    {
        if text_is(s, "string") {
            Ok(DataType::String)
        } else if text_is(s, "double") {
            Ok(DataType::Double)
        } else if text_is(s, "boolean") {
            Ok(DataType::Bool)
        } else if text_is(s, "long") {
            Ok(DataType::Long)
        } else if text_is(s, "unsignedLong") {
            Ok(DataType::UnsignedLong)
        } else if text_is(s, "duration") {
            Ok(DataType::Duration)
        } else if text_is(s, "base64Binary") {
            Ok(DataType::Base64Binary)
        } else if text_is(s, "dateTime:RFC3339") || text_is(s, "dateTime:RFC3339Nano") {
            Ok(DataType::TimeRFC)
        } else {
            Err(DecodeError::UnknownDataType { token: s.to_owned() })
        }
    }
}

/// The value that a cell denotes under a declared type, if any.
pub open spec fn cell_value(cell: Seq<char>, t: DataType) -> Option<ValueModel> {
    match t {
        DataType::String => Some(ValueModel::String(cell)),
        DataType::Double => if is_float_literal(cell) {
            Some(ValueModel::Double(cell))
        } else {
            None
        },
        DataType::Bool => Some(ValueModel::Bool(lower_of(cell) != "false"@)),
        DataType::Long => match i64_of_text(cell) {
            Some(n) => Some(ValueModel::Long(n)),
            None => None,
        },
        DataType::UnsignedLong => match u64_of_text(cell) {
            Some(n) => Some(ValueModel::UnsignedLong(n)),
            None => None,
        },
        DataType::Duration => if duration_in_reach(cell) {
            match go_duration_nanos(cell) {
                Some(n) => Some(ValueModel::Duration(n)),
                None => None,
            }
        } else {
            None
        },
        DataType::Base64Binary => match base64_decoded(cell) {
            Some(b) => Some(ValueModel::Base64Binary(b)),
            None => None,
        },
        DataType::TimeRFC => match rfc3339_instant(cell) {
            Some(t) => Some(
                ValueModel::TimeRFC(t.0, t.1),
            ),
            None => None,
        },
    }
}

/// A boolean cell's value from its lowercase text: only `false` is false.
pub fn bool_from_lowercase(lowered: &str) -> (r: bool)
    ensures
        r == (lowered@ != "false"@),
{
    !text_is(lowered, "false")
}

/// Reads a cell as the column's declared type; `name` is the column's, for
/// the error.
pub fn parse_value(s: &str, t: DataType, name: &str) -> (r: Result<Value, DecodeError>)
    ensures
        match r {
            Ok(v) => cell_value(s@, t) == Some(v@) && (v matches Value::TimeRFC(ts)
                ==> rfc3339_instant(s@) == Some((ts.seconds, ts.nanos, ts.offset_seconds))),
            Err(e) => cell_value(s@, t).is_none() && e@ == (
            crate::error::DecodeErrorModel::ValueParseFailure {
                data_type: t,
                column: name@,
                cell: s@,
            }),
        },
{
    let v = match t {
        DataType::String => Some(Value::String(s.to_owned())),
        DataType::Double => if float_literal(s) {
            Some(Value::Double(s.to_owned()))
        } else {
            None
        },
        DataType::Bool => {
            let lowered = lowercase(s);
            Some(Value::Bool(bool_from_lowercase(lowered.as_str())))
        },
        DataType::Long => match parse_i64(s) {
            Some(n) => Some(Value::Long(n)),
            None => None,
        },
        DataType::UnsignedLong => match parse_u64(s) {
            Some(n) => Some(Value::UnsignedLong(n)),
            None => None,
        },
        DataType::Duration => if in_duration_reach(s) {
            match parse_go_duration(s) {
                Some(n) => Some(Value::Duration(n)),
                None => None,
            }
        } else {
            None
        },
        DataType::Base64Binary => match decode_base64(s) {
            Some(b) => Some(Value::Base64Binary(b)),
            None => None,
        },
        DataType::TimeRFC => match parse_rfc3339(s) {
            Some(ts) => Some(Value::TimeRFC(ts)),
            None => None,
        },
    };
    match v {
        Some(v) => Ok(v),
        None => Err(
            DecodeError::ValueParseFailure { data_type: t, column: name.to_owned(), cell: s.to_owned() },
        ),
    }
}

/// The cell text of a value, where the codec writes one.
pub open spec fn cell_text_of(v: ValueModel) -> Option<Seq<char>> {
    match v {
        ValueModel::String(s) => Some(s),
        ValueModel::Double(s) => Some(s),
        ValueModel::Bool(b) => Some(if b { "true"@ } else { "false"@ }),
        ValueModel::Long(n) => Some(int_text(n as int)),
        ValueModel::UnsignedLong(n) => Some(decimal_text(n as nat)),
        ValueModel::Base64Binary(b) => Some(base64_text(b)),
        _ => None,
    }
}

/// Writes a value back as cell text; durations, timestamps and `Unknown`
/// have none.
pub fn encode_cell(v: &Value) -> (r: Option<String>)
    ensures
        match r {
            Some(s) => cell_text_of(v@) == Some(s@),
            None => cell_text_of(v@).is_none(),
        },
{
    match v {
        Value::String(s) => Some(s.clone()),
        Value::Double(s) => Some(s.clone()),
        Value::Bool(b) => Some(String::from_str(if *b { "true" } else { "false" })),
        Value::Long(n) => {
            let mut r = String::new();
            push_i64(&mut r, *n);
            assert(r@ =~= int_text(*n as int));
            Some(r)
        },
        Value::UnsignedLong(n) => {
            let mut r = String::new();
            push_u64(&mut r, *n);
            assert(r@ =~= decimal_text(*n as nat));
            Some(r)
        },
        Value::Base64Binary(b) => Some(encode_base64(b)),
        _ => None,
    }
}

/// The declared type under which a value is read back.
pub open spec fn value_type(v: ValueModel) -> DataType {
    match v {
        ValueModel::Double(_) => DataType::Double,
        ValueModel::Bool(_) => DataType::Bool,
        ValueModel::Long(_) => DataType::Long,
        ValueModel::UnsignedLong(_) => DataType::UnsignedLong,
        ValueModel::Duration(_) => DataType::Duration,
        ValueModel::Base64Binary(_) => DataType::Base64Binary,
        ValueModel::TimeRFC(_, _) => DataType::TimeRFC,
        _ => DataType::String,
    }
}

/// Writing a string, double, long or unsigned long cell and reading it back
/// under its type gives the value again.
pub proof fn lemma_value_round_trip(v: ValueModel)
    requires
        v is String || v is Long || v is UnsignedLong || (v is Double && is_float_literal(
            v->Double_0,
        )),
    ensures
        cell_text_of(v) is Some,
        cell_value(cell_text_of(v)->Some_0, value_type(v)) == Some(v),
{
    match v {
        ValueModel::Long(n) => crate::text::lemma_i64_text_round_trip(n),
        ValueModel::UnsignedLong(n) => crate::text::lemma_u64_text_round_trip(n),
        _ => {},
    }
}

/// Reading a cell under the string, double, long or unsigned long type and
/// writing the value back gives the cell again, where the cell is the
/// canonical text of its value (integers without sign `+` or leading zeros).
pub proof fn lemma_cell_round_trip(cell: Seq<char>, t: DataType)
    requires
        t == DataType::String || t == DataType::Double || t == DataType::Long || t
            == DataType::UnsignedLong,
        cell_value(cell, t) is Some,
        t == DataType::Long ==> exists|n: i64| cell == int_text(n as int),
        t == DataType::UnsignedLong ==> exists|n: u64| cell == decimal_text(n as nat),
    ensures
        cell_text_of(cell_value(cell, t)->Some_0) == Some(cell),
{
    if t == DataType::Long {
        let n = choose|n: i64| cell == int_text(n as int);
        crate::text::lemma_i64_text_round_trip(n);
    } else if t == DataType::UnsignedLong {
        let n = choose|n: u64| cell == decimal_text(n as nat);
        crate::text::lemma_u64_text_round_trip(n);
    }
}

} // verus!
