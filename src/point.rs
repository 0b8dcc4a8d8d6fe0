//! Points and point schemas, and their line-protocol text.

use vstd::prelude::*;
use crate::text::{decimal_text, float_literal, int_text, is_float_literal, push_i64, push_u64};
use crate::writable::{quoted, ValueWritable};

verus! {

/// A typed field value.
#[derive(Clone, Debug)]
pub enum FieldValue {
    /// A float, held as its decimal literal.
    Float(String),
    Integer(i64),
    UInteger(u64),
    Str(String),
    Boolean(bool),
}

impl FieldValue {
    /// A float field value from its literal, if the text is one.
    pub fn float(text: &str) -> (r: Option<FieldValue>)
        ensures
            match r {
                Some(v) => is_float_literal(text@) && v is Float && v->Float_0@ == text@,
                None => !is_float_literal(text@),
            },
    {
        if float_literal(text) {
            Some(FieldValue::Float(text.to_owned()))
        } else {
            None
        }
    }
}

impl FieldValue {
    /// A copy of the value.
    pub fn duplicate(&self) -> (r: FieldValue)
        ensures
            r == *self,
    {
        match self {
            FieldValue::Float(s) => FieldValue::Float(s.clone()),
            FieldValue::Integer(n) => FieldValue::Integer(*n),
            FieldValue::UInteger(n) => FieldValue::UInteger(*n),
            FieldValue::Str(s) => FieldValue::Str(s.clone()),
            FieldValue::Boolean(b) => FieldValue::Boolean(*b),
        }
    }
}

impl ValueWritable for FieldValue {
    open spec fn value_text(&self) -> Seq<char> {
        match self {
            FieldValue::Float(s) => s@,
            FieldValue::Integer(n) => n.value_text(),
            FieldValue::UInteger(n) => n.value_text(),
            FieldValue::Str(s) => quoted(s@),
            FieldValue::Boolean(b) => b.value_text(),
        }
    }

    fn encode_value(&self) -> (r: String) {
        match self {
            FieldValue::Float(s) => s.clone(),
            FieldValue::Integer(n) => n.encode_value(),
            FieldValue::UInteger(n) => n.encode_value(),
            FieldValue::Str(s) => s.encode_value(),
            FieldValue::Boolean(b) => b.encode_value(),
        }
    }
}

/// What a point denotes: its measurement, tags, fields (each key with its
/// value literal) and the decimal text of its timestamp.
pub struct PointModel {
    pub measurement: Seq<char>,
    pub tags: Seq<(Seq<char>, Seq<char>)>,
    pub fields: Seq<(Seq<char>, Seq<char>)>,
    pub timestamp: Option<Seq<char>>,
}

/// `,key=value` for each tag, in order.
pub open spec fn tags_part(tags: Seq<(Seq<char>, Seq<char>)>) -> Seq<char>
    decreases tags.len(),
{
    if tags.len() == 0 {
        Seq::empty()
    } else {
        tags_part(tags.drop_last()) + ","@ + tags.last().0 + "="@ + tags.last().1
    }
}

/// `key=value` for each field, in order, joined by commas.
pub open spec fn fields_part(fields: Seq<(Seq<char>, Seq<char>)>) -> Seq<char>
    decreases fields.len(),
{
    if fields.len() == 0 {
        Seq::empty()
    } else if fields.len() == 1 {
        fields[0].0 + "="@ + fields[0].1
    } else {
        fields_part(fields.drop_last()) + ","@ + fields.last().0 + "="@ + fields.last().1
    }
}

/// The line-protocol line of a point: measurement, tags, a space, fields,
/// then a space and the timestamp where there is one, and a newline.
pub open spec fn line_of(p: PointModel) -> Seq<char> {
    p.measurement + tags_part(p.tags) + " "@ + fields_part(p.fields) + match p.timestamp {
        Some(t) => " "@ + t,
        None => Seq::empty(),
    } + "\n"@
}

/// A point to write: a measurement, tags and fields in declared order, and
/// an optional timestamp in the unit of the write.
#[derive(Clone, Debug)]
pub struct DataPoint {
    measurement: String,
    tags: Vec<(String, String)>,
    fields: Vec<(String, FieldValue)>,
    timestamp: Option<String>,
}

pub open spec fn opt_text(t: Option<String>) -> Option<Seq<char>> {
    match t {
        Some(s) => Some(s@),
        None => None,
    }
}

pub open spec fn pairs_view(v: Seq<(String, String)>) -> Seq<(Seq<char>, Seq<char>)> {
    v.map_values(|p: (String, String)| (p.0@, p.1@))
}

pub open spec fn fields_view(v: Seq<(String, FieldValue)>) -> Seq<(Seq<char>, Seq<char>)> {
    v.map_values(|p: (String, FieldValue)| (p.0@, p.1.value_text()))
}

impl View for DataPoint {
    type V = PointModel;

    closed spec fn view(&self) -> PointModel {
        PointModel {
            measurement: self.measurement@,
            tags: pairs_view(self.tags@),
            fields: fields_view(self.fields@),
            timestamp: opt_text(self.timestamp),
        }
    }
}

/// Builds a `DataPoint` one tag or field at a time.
#[derive(Clone, Debug)]
pub struct DataPointBuilder {
    measurement: String,
    tags: Vec<(String, String)>,
    fields: Vec<(String, FieldValue)>,
    timestamp: Option<String>,
}

impl View for DataPointBuilder {
    type V = PointModel;

    closed spec fn view(&self) -> PointModel {
        PointModel {
            measurement: self.measurement@,
            tags: pairs_view(self.tags@),
            fields: fields_view(self.fields@),
            timestamp: opt_text(self.timestamp),
        }
    }
}

/// Why a point could not be built.
#[derive(Clone, Copy, Debug, PartialEq, Eq, Structural)]
pub enum DataPointError {
    /// A point needs at least one field.
    NoFields,
}

impl DataPoint {
    /// Starts a point of the given measurement.
    pub fn builder(measurement: &str) -> (r: DataPointBuilder)
        ensures
            r@ == (PointModel {
                measurement: measurement@,
                tags: Seq::empty(),
                fields: Seq::empty(),
                timestamp: None,
            }),
    {
        let r = DataPointBuilder {
            measurement: measurement.to_owned(),
            tags: Vec::new(),
            fields: Vec::new(),
            timestamp: None,
        };
        assert(pairs_view(r.tags@) =~= Seq::empty());
        assert(fields_view(r.fields@) =~= Seq::empty());
        r
    }

    /// The line-protocol text of the point.
    pub fn encode_line(&self) -> (r: String)
        ensures
            r@ == line_of(self@),
    {
        let mut r = self.measurement.clone();
        let ghost tags = pairs_view(self.tags@);
        let ghost fields = fields_view(self.fields@);
        let mut i: usize = 0;
        while i < self.tags.len()
            invariant
                i <= self.tags@.len(),
                tags == pairs_view(self.tags@),
                r@ == self.measurement@ + tags_part(tags.subrange(0, i as int)),
            decreases self.tags@.len() - i,
        {
            assert(tags.subrange(0, i + 1).drop_last() =~= tags.subrange(0, i as int));
            r.append(",");
            r.append(self.tags[i].0.as_str());
            r.append("=");
            r.append(self.tags[i].1.as_str());
            i = i + 1;
            assert(r@ =~= self.measurement@ + tags_part(tags.subrange(0, i as int)));
        }
        assert(tags.subrange(0, self.tags@.len() as int) =~= tags);
        r.append(" ");
        let ghost head = r@;
        let mut j: usize = 0;
        while j < self.fields.len()
            invariant
                j <= self.fields@.len(),
                fields == fields_view(self.fields@),
                r@ == head + fields_part(fields.subrange(0, j as int)),
            decreases self.fields@.len() - j,
        {
            assert(fields.subrange(0, j + 1).drop_last() =~= fields.subrange(0, j as int));
            if j > 0 {
                r.append(",");
            }
            r.append(self.fields[j].0.as_str());
            r.append("=");
            let v = self.fields[j].1.encode_value();
            r.append(v.as_str());
            j = j + 1;
            assert(r@ =~= head + fields_part(fields.subrange(0, j as int)));
        }
        assert(fields.subrange(0, self.fields@.len() as int) =~= fields);
        match &self.timestamp {
            Some(t) => {
                r.append(" ");
                r.append(t.as_str());
            },
            None => {},
        }
        r.append("\n");
        assert(r@ =~= line_of(self@));
        r
    }
}

impl DataPointBuilder {
    /// Adds a tag after those already added.
    pub fn tag(self, key: &str, value: &str) -> (r: DataPointBuilder)
        ensures
            r@ == (PointModel { tags: self@.tags.push((key@, value@)), ..self@ }),
    {
        let mut b = self;
        b.tags.push((key.to_owned(), value.to_owned()));
        assert(pairs_view(b.tags@) =~= pairs_view(self.tags@).push((key@, value@)));
        b
    }

    /// Adds a field after those already added.
    pub fn field(self, key: &str, value: FieldValue) -> (r: DataPointBuilder)
        ensures
            r@ == (PointModel { fields: self@.fields.push((key@, value.value_text())), ..self@ }),
    {
        let mut b = self;
        let ghost t = value.value_text();
        b.fields.push((key.to_owned(), value));
        assert(fields_view(b.fields@) =~= fields_view(self.fields@).push((key@, t)));
        b
    }

    /// Sets the timestamp.
    pub fn timestamp(self, t: i64) -> (r: DataPointBuilder)
        ensures
            r@ == (PointModel { timestamp: Some(int_text(t as int)), ..self@ }),
    {
        let mut b = self;
        let mut text = String::new();
        push_i64(&mut text, t);
        assert(text@ =~= int_text(t as int));
        b.timestamp = Some(text);
        b
    }

    /// Sets an unsigned timestamp.
    pub fn timestamp_unsigned(self, t: u64) -> (r: DataPointBuilder)
        ensures
            r@ == (PointModel { timestamp: Some(decimal_text(t as nat)), ..self@ }),
    {
        let mut b = self;
        let mut text = String::new();
        push_u64(&mut text, t);
        assert(text@ =~= decimal_text(t as nat));
        b.timestamp = Some(text);
        b
    }

    /// The point, which needs at least one field.
    pub fn build(self) -> (r: Result<DataPoint, DataPointError>)
        ensures
            match r {
                Ok(p) => p@ == self@ && self@.fields.len() > 0,
                Err(e) => e == DataPointError::NoFields && self@.fields.len() == 0,
            },
    {
        if self.fields.len() == 0 {
            return Err(DataPointError::NoFields);
        }
        Ok(
            DataPoint {
                measurement: self.measurement,
                tags: self.tags,
                fields: self.fields,
                timestamp: self.timestamp,
            },
        )
    }
}

/// The part a member of a point schema plays.
#[derive(Clone, Copy, Debug, PartialEq, Eq, Structural)]
pub enum Role {
    Tag,
    Field,
    Timestamp,
    Ignore,
}

/// Why a point schema was refused.
#[derive(Clone, Copy, Debug, PartialEq, Eq, Structural)]
pub enum SchemaError {
    /// No member is a tag.
    NoTag,
    /// Not exactly one member is the timestamp.
    TimestampCount,
    /// No member is a field.
    NoField,
}

/// Why a record could not be made a point under a schema.
#[derive(Clone, Copy, Debug, PartialEq, Eq, Structural)]
pub enum PointError {
    /// The record has not one value slot per schema member.
    WidthMismatch,
    /// A tag's value is neither text nor an unsigned integer.
    TagKind,
    /// The timestamp is not an integer.
    TimestampKind,
    /// Every field value is absent.
    NoFieldValue,
}

pub open spec fn role_count(entries: Seq<(Seq<char>, Role)>, r: Role) -> nat
    decreases entries.len(),
{
    if entries.len() == 0 {
        0
    } else {
        role_count(entries.drop_last(), r) + if entries.last().1 == r {
            1nat
        } else {
            0nat
        }
    }
}

/// What is wrong with a schema's members, if anything: it needs a tag,
/// exactly one timestamp and a field.
pub open spec fn schema_fault(entries: Seq<(Seq<char>, Role)>) -> Option<SchemaError> {
    if role_count(entries, Role::Tag) == 0 {
        Some(SchemaError::NoTag)
    } else if role_count(entries, Role::Timestamp) != 1 {
        Some(SchemaError::TimestampCount)
    } else if role_count(entries, Role::Field) == 0 {
        Some(SchemaError::NoField)
    } else {
        None
    }
}

pub open spec fn entries_view(v: Seq<(String, Role)>) -> Seq<(Seq<char>, Role)> {
    v.map_values(|e: (String, Role)| (e.0@, e.1))
}

/// A measurement and its members, by name and role, in declared order.
#[derive(Clone, Debug)]
pub struct PointSchema {
    measurement: String,
    entries: Vec<(String, Role)>,
}

/// The text of a tag value: text as it is, an unsigned integer in decimal.
pub open spec fn tag_text(v: FieldValue) -> Option<Seq<char>> {
    match v {
        FieldValue::Str(s) => Some(s@),
        FieldValue::UInteger(n) => Some(decimal_text(n as nat)),
        _ => None,
    }
}

/// The decimal text of a timestamp value, signed or unsigned.
pub open spec fn timestamp_text(v: FieldValue) -> Option<Seq<char>> {
    match v {
        FieldValue::Integer(t) => Some(int_text(t as int)),
        FieldValue::UInteger(n) => Some(decimal_text(n as nat)),
        _ => None,
    }
}

pub type PointParts = (Seq<(Seq<char>, Seq<char>)>, Seq<(Seq<char>, Seq<char>)>, Option<Seq<char>>);

/// Tags, fields and timestamp from the first `k` members and their values;
/// an absent value is left out.
pub open spec fn point_parts(
    entries: Seq<(Seq<char>, Role)>,
    values: Seq<Option<FieldValue>>,
    k: nat,
) -> Result<PointParts, PointError>
    decreases k,
{
    if k == 0 {
        Ok((Seq::empty(), Seq::empty(), None))
    } else {
        match point_parts(entries, values, (k - 1) as nat) {
            Err(e) => Err(e),
            Ok(parts) => {
                let (tags, fields, ts) = parts;
                let name = entries[k - 1].0;
                match values[k - 1] {
                    None => Ok(parts),
                    Some(v) => match entries[k - 1].1 {
                        Role::Tag => match tag_text(v) {
                            Some(t) => Ok((tags.push((name, t)), fields, ts)),
                            None => Err(PointError::TagKind),
                        },
                        Role::Field => Ok((tags, fields.push((name, v.value_text())), ts)),
                        Role::Timestamp => match timestamp_text(v) {
                            Some(t) => Ok((tags, fields, Some(t))),
                            None => Err(PointError::TimestampKind),
                        },
                        Role::Ignore => Ok(parts),
                    },
                }
            },
        }
    }
}

/// The point that a schema makes of one value slot per member.
pub open spec fn point_of(
    measurement: Seq<char>,
    entries: Seq<(Seq<char>, Role)>,
    values: Seq<Option<FieldValue>>,
) -> Result<PointModel, PointError> {
    if values.len() != entries.len() {
        Err(PointError::WidthMismatch)
    } else {
        match point_parts(entries, values, entries.len()) {
            Err(e) => Err(e),
            Ok(parts) => if parts.1.len() == 0 {
                Err(PointError::NoFieldValue)
            } else {
                Ok(PointModel { measurement, tags: parts.0, fields: parts.1, timestamp: parts.2 })
            },
        }
    }
}

proof fn lemma_parts_error_stays(
    entries: Seq<(Seq<char>, Role)>,
    values: Seq<Option<FieldValue>>,
    k: nat,
    n: nat,
)
    requires
        k <= n,
        point_parts(entries, values, k).is_err(),
    ensures
        point_parts(entries, values, n) == point_parts(entries, values, k),
    decreases n - k,
{
    if k < n {
        lemma_parts_error_stays(entries, values, k, (n - 1) as nat);
    }
}

impl PointSchema {
    pub closed spec fn measurement(&self) -> Seq<char> {
        self.measurement@
    }

    pub closed spec fn entries(&self) -> Seq<(Seq<char>, Role)> {
        entries_view(self.entries@)
    }

    /// A schema, if its members hold a tag, exactly one timestamp and a
    /// field.
    pub fn new(measurement: &str, entries: Vec<(String, Role)>) -> (r: Result<PointSchema, SchemaError>)
        ensures
            match r {
                Ok(s) => schema_fault(entries_view(entries@)).is_none() && s.measurement()
                    == measurement@ && s.entries() == entries_view(entries@),
                Err(e) => schema_fault(entries_view(entries@)) == Some(e),
            },
    {
        let ghost ev = entries_view(entries@);
        let mut tags: usize = 0;
        let mut stamps: usize = 0;
        let mut fields: usize = 0;
        let mut i: usize = 0;
        while i < entries.len()
            invariant
                i <= entries@.len(),
                ev == entries_view(entries@),
                tags == role_count(ev.subrange(0, i as int), Role::Tag),
                stamps == role_count(ev.subrange(0, i as int), Role::Timestamp),
                fields == role_count(ev.subrange(0, i as int), Role::Field),
                tags <= i && stamps <= i && fields <= i,
            decreases entries@.len() - i,
        {
            assert(ev.subrange(0, i + 1).drop_last() =~= ev.subrange(0, i as int));
            match entries[i].1 {
                Role::Tag => tags = tags + 1,
                Role::Timestamp => stamps = stamps + 1,
                Role::Field => fields = fields + 1,
                Role::Ignore => {},
            }
            i = i + 1;
        }
        assert(ev.subrange(0, entries@.len() as int) =~= ev);
        if tags == 0 {
            Err(SchemaError::NoTag)
        } else if stamps != 1 {
            Err(SchemaError::TimestampCount)
        } else if fields == 0 {
            Err(SchemaError::NoField)
        } else {
            Ok(PointSchema { measurement: measurement.to_owned(), entries })
        }
    }

    /// The point of a record given as one optional value per member.
    pub fn point(&self, values: &Vec<Option<FieldValue>>) -> (r: Result<DataPoint, PointError>)
        ensures
            match r {
                Ok(p) => point_of(self.measurement(), self.entries(), values@) == Ok::<
                    PointModel,
                    PointError,
                >(p@),
                Err(e) => point_of(self.measurement(), self.entries(), values@) == Err::<
                    PointModel,
                    PointError,
                >(e),
            },
    {
        let ghost ev = entries_view(self.entries@);
        if values.len() != self.entries.len() {
            return Err(PointError::WidthMismatch);
        }
        let n = values.len();
        let mut tags: Vec<(String, String)> = Vec::new();
        let mut fields: Vec<(String, FieldValue)> = Vec::new();
        let mut ts: Option<String> = None;
        let mut k: usize = 0;
        assert(pairs_view(tags@) =~= Seq::empty());
        assert(fields_view(fields@) =~= Seq::empty());
        while k < n
            invariant
                n == values@.len(),
                n == self.entries@.len(),
                ev == entries_view(self.entries@),
                k <= n,
                point_parts(ev, values@, k as nat) == Ok::<PointParts, PointError>(
                    (pairs_view(tags@), fields_view(fields@), opt_text(ts)),
                ),
            decreases n - k,
        {
            let name = &self.entries[k].0;
            assert(ev[k as int] == (name@, self.entries@[k as int].1));
            match &values[k] {
                None => {},
                Some(v) => match self.entries[k].1 {
                    Role::Tag => {
                        let t = match v {
                            FieldValue::Str(s) => s.clone(),
                            FieldValue::UInteger(u) => {
                                let mut t = String::new();
                                push_u64(&mut t, *u);
                                assert(t@ =~= decimal_text(*u as nat));
                                t
                            },
                            _ => {
                                proof { lemma_parts_error_stays(ev, values@, (k + 1) as nat, n as nat); }
                                return Err(PointError::TagKind);
                            },
                        };
                        let ghost before = pairs_view(tags@);
                        tags.push((name.clone(), t));
                        assert(pairs_view(tags@) =~= before.push((name@, tag_text(*v).unwrap())));
                    },
                    Role::Field => {
                        let ghost before = fields_view(fields@);
                        fields.push((name.clone(), v.duplicate()));
                        assert(fields_view(fields@) =~= before.push((name@, v.value_text())));
                    },
                    Role::Timestamp => {
                        match v {
                            FieldValue::Integer(t) => {
                                let mut text = String::new();
                                push_i64(&mut text, *t);
                                assert(text@ =~= int_text(*t as int));
                                ts = Some(text);
                            },
                            FieldValue::UInteger(u) => {
                                let mut text = String::new();
                                push_u64(&mut text, *u);
                                assert(text@ =~= decimal_text(*u as nat));
                                ts = Some(text);
                            },
                            _ => {
                                proof { lemma_parts_error_stays(ev, values@, (k + 1) as nat, n as nat); }
                                return Err(PointError::TimestampKind);
                            },
                        }
                    },
                    Role::Ignore => {},
                },
            }
            k = k + 1;
        }
        if fields.len() == 0 {
            return Err(PointError::NoFieldValue);
        }
        let p = DataPoint { measurement: self.measurement.clone(), tags, fields, timestamp: ts };
        assert(p@ == PointModel {
            measurement: self.measurement@,
            tags: pairs_view(p.tags@),
            fields: fields_view(p.fields@),
            timestamp: opt_text(p.timestamp),
        });
        Ok(p)
    }

    /// The line-protocol line of a record given as one optional value per
    /// member.
    pub fn encode(&self, values: &Vec<Option<FieldValue>>) -> (r: Result<String, PointError>)
        ensures
            match r {
                Ok(s) => point_of(self.measurement(), self.entries(), values@) is Ok && s@
                    == line_of(point_of(self.measurement(), self.entries(), values@)->Ok_0),
                Err(e) => point_of(self.measurement(), self.entries(), values@) == Err::<
                    PointModel,
                    PointError,
                >(e),
            },
    {
        let p = self.point(values)?;
        Ok(p.encode_line())
    }
}

} // verus!
