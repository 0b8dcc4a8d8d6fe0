//! Primitive wire values and their mathematical model.

use vstd::prelude::*;

verus! {

/// An offset-aware instant: seconds and nanoseconds since the Unix epoch
/// (UTC), and the offset east of UTC, in seconds, that the text carried.
/// As a `Value`, a timestamp equals another of the same instant, whatever
/// the offsets.
#[derive(Clone, Copy, Debug, PartialEq, Eq, Structural)]
pub struct Timestamp {
    pub seconds: i64,
    pub nanos: u32,
    pub offset_seconds: i32,
}

/// The declared type of an annotated-CSV column.
#[derive(Clone, Copy, Debug, PartialEq, Eq, Structural)]
pub enum DataType {
    String,
    Double,
    Bool,
    Long,
    UnsignedLong,
    Duration,
    Base64Binary,
    TimeRFC,
}

/// A primitive wire value.
///
/// A double is held as the decimal literal it was read from (or will be
/// written as); a duration as signed nanoseconds.
#[derive(Clone, Debug)]
pub enum Value {
    Unknown,
    String(String),
    Double(String),
    Bool(bool),
    Long(i64),
    UnsignedLong(u64),
    Duration(i64),
    Base64Binary(Vec<u8>),
    TimeRFC(Timestamp),
}

/// What a `Value` denotes.
pub enum ValueModel {
    Unknown,
    String(Seq<char>),
    Double(Seq<char>),
    Bool(bool),
    Long(i64),
    UnsignedLong(u64),
    Duration(i64),
    Base64Binary(Seq<u8>),
    /// The instant: seconds since the epoch and sub-second nanoseconds.
    TimeRFC(i64, u32),
}

impl View for Value {
    type V = ValueModel;

    open spec fn view(&self) -> ValueModel {
        match self {
            Value::Unknown => ValueModel::Unknown,
            Value::String(s) => ValueModel::String(s@),
            Value::Double(s) => ValueModel::Double(s@),
            Value::Bool(b) => ValueModel::Bool(*b),
            Value::Long(n) => ValueModel::Long(*n),
            Value::UnsignedLong(n) => ValueModel::UnsignedLong(*n),
            Value::Duration(n) => ValueModel::Duration(*n),
            Value::Base64Binary(b) => ValueModel::Base64Binary(b@),
            Value::TimeRFC(t) => ValueModel::TimeRFC(t.seconds, t.nanos),
        }
    }
}

fn bytes_equal(a: &Vec<u8>, b: &Vec<u8>) -> (r: bool)
    ensures
        r == (a@ == b@),
{
    if a.len() != b.len() {
        return false;
    }
    let mut i: usize = 0;
    while i < a.len()
        invariant
            a@.len() == b@.len(),
            i <= a@.len(),
            forall|j: int| 0 <= j < i ==> a@[j] == b@[j],
        decreases a@.len() - i,
    {
        if a[i] != b[i] {
            return false;
        }
        i = i + 1;
    }
    assert(a@ =~= b@);
    true
}

fn bytes_copy(a: &Vec<u8>) -> (r: Vec<u8>)
    ensures
        r@ == a@,
{
    let mut r: Vec<u8> = Vec::new();
    let mut i: usize = 0;
    while i < a.len()
        invariant
            i <= a@.len(),
            r@ == a@.subrange(0, i as int),
        decreases a@.len() - i,
    {
        r.push(a[i]);
        i = i + 1;
        assert(r@ =~= a@.subrange(0, i as int));
    }
    assert(a@.subrange(0, a@.len() as int) =~= a@);
    r
}

impl Value {
    /// A copy with the same model.
    pub fn duplicate(&self) -> (r: Value)
        ensures
            r@ == self@,
    {
        match self {
            Value::Unknown => Value::Unknown,
            Value::String(s) => Value::String(s.clone()),
            Value::Double(s) => Value::Double(s.clone()),
            Value::Bool(b) => Value::Bool(*b),
            Value::Long(n) => Value::Long(*n),
            Value::UnsignedLong(n) => Value::UnsignedLong(*n),
            Value::Duration(n) => Value::Duration(*n),
            Value::Base64Binary(b) => Value::Base64Binary(bytes_copy(b)),
            Value::TimeRFC(t) => Value::TimeRFC(*t),
        }
    }

    /// The boolean held, if this is a `Bool`.
    pub fn bool(&self) -> (r: Option<bool>)
        ensures
            r == (match self@ {
                ValueModel::Bool(b) => Some(b),
                _ => None,
            }),
    {
        match self {
            Value::Bool(b) => Some(*b),
            _ => None,
        }
    }

    /// The signed integer held, if this is a `Long`.
    pub fn i64(&self) -> (r: Option<i64>)
        ensures
            r == (match self@ {
                ValueModel::Long(n) => Some(n),
                _ => None,
            }),
    {
        match self {
            Value::Long(n) => Some(*n),
            _ => None,
        }
    }

    /// The unsigned integer held, if this is an `UnsignedLong`.
    pub fn u64(&self) -> (r: Option<u64>)
        ensures
            r == (match self@ {
                ValueModel::UnsignedLong(n) => Some(n),
                _ => None,
            }),
    {
        match self {
            Value::UnsignedLong(n) => Some(*n),
            _ => None,
        }
    }

    /// The decimal literal held, if this is a `Double`.
    pub fn double_text(&self) -> (r: Option<String>)
        ensures
            match self@ {
                ValueModel::Double(s) => r.is_some() && r.unwrap()@ == s,
                _ => r.is_none(),
            },
    {
        match self {
            Value::Double(s) => Some(s.clone()),
            _ => None,
        }
    }

    /// The text held, if this is a `String`.
    pub fn string(&self) -> (r: Option<String>)
        ensures
            match self@ {
                ValueModel::String(s) => r.is_some() && r.unwrap()@ == s,
                _ => r.is_none(),
            },
    {
        match self {
            Value::String(s) => Some(s.clone()),
            _ => None,
        }
    }
}

impl PartialEq for Value {
    fn eq(&self, other: &Value) -> (r: bool)
        ensures
            r == (self@ == other@),
    {
        match (self, other) {
            (Value::Unknown, Value::Unknown) => true,
            (Value::String(a), Value::String(b)) => a.eq(b),
            (Value::Double(a), Value::Double(b)) => a.eq(b),
            (Value::Bool(a), Value::Bool(b)) => *a == *b,
            (Value::Long(a), Value::Long(b)) => *a == *b,
            (Value::UnsignedLong(a), Value::UnsignedLong(b)) => *a == *b,
            (Value::Duration(a), Value::Duration(b)) => *a == *b,
            (Value::Base64Binary(a), Value::Base64Binary(b)) => bytes_equal(a, b),
            (Value::TimeRFC(a), Value::TimeRFC(b)) => a.seconds == b.seconds && a.nanos == b.nanos,
            _ => false,
        }
    }
}

impl vstd::std_specs::cmp::PartialEqSpecImpl for Value {
    open spec fn obeys_eq_spec() -> bool {
        true
    }

    open spec fn eq_spec(&self, other: &Value) -> bool {
        self@ == other@
    }
}

} // verus!
