//! Projection of composite records onto declared field schemas.

use vstd::prelude::*;
use crate::map::GenericMap;
use crate::value::{Value, ValueModel};

verus! {

/// The value variant a schema field expects.
#[derive(Clone, Copy, Debug, PartialEq, Eq, Structural)]
pub enum ValueKind {
    Double,
    Long,
    UnsignedLong,
    Bool,
    String,
    Duration,
    TimeRFC,
    Base64Binary,
}

/// Why a record could not be projected.
#[derive(Clone, Debug)]
pub enum MappingError {
    /// Neither the name nor the name with a leading underscore is a key.
    Missing { key: String },
    /// The value under the key is of another variant.
    WrongType { key: String },
}

pub enum MappingErrorModel {
    Missing { key: Seq<char> },
    WrongType { key: Seq<char> },
}

impl View for MappingError {
    type V = MappingErrorModel;

    open spec fn view(&self) -> MappingErrorModel {
        match self {
            MappingError::Missing { key } => MappingErrorModel::Missing { key: key@ },
            MappingError::WrongType { key } => MappingErrorModel::WrongType { key: key@ },
        }
    }
}

/// A type built from a composite record.
pub trait FromMap: Sized {
    /// Builds a value from a record; an absent or mistyped field fails.
    fn from_genericmap(map: GenericMap) -> Result<Self, MappingError>;
}

/// A type that can be turned into a composite record.
pub trait ToMap: Sized {
    /// The record of a value.
    fn to_genericmap(structure: Self) -> GenericMap;
}

pub open spec fn kind_matches(v: ValueModel, k: ValueKind) -> bool {
    match (v, k) {
        (ValueModel::Double(_), ValueKind::Double) => true,
        (ValueModel::Long(_), ValueKind::Long) => true,
        (ValueModel::UnsignedLong(_), ValueKind::UnsignedLong) => true,
        (ValueModel::Bool(_), ValueKind::Bool) => true,
        (ValueModel::String(_), ValueKind::String) => true,
        (ValueModel::Duration(_), ValueKind::Duration) => true,
        (ValueModel::TimeRFC(_, _), ValueKind::TimeRFC) => true,
        (ValueModel::Base64Binary(_), ValueKind::Base64Binary) => true,
        _ => false,
    }
}

/// The key a field is read from: its name if present, else its name with a
/// leading underscore.
pub open spec fn probed_key(m: Map<Seq<char>, ValueModel>, name: Seq<char>) -> Seq<char> {
    if m.contains_key(name) {
        name
    } else {
        "_"@ + name
    }
}

/// The values of the first `k` schema fields, in schema order, or the first
/// failure.
pub open spec fn projected(
    m: Map<Seq<char>, ValueModel>,
    schema: Seq<(Seq<char>, ValueKind)>,
    k: nat,
) -> Result<Seq<ValueModel>, MappingErrorModel>
    decreases k,
{
    if k == 0 {
        Ok(Seq::empty())
    } else {
        match projected(m, schema, (k - 1) as nat) {
            Err(e) => Err(e),
            Ok(vs) => {
                let key = probed_key(m, schema[k - 1].0);
                if !m.contains_key(key) {
                    Err(MappingErrorModel::Missing { key })
                } else if !kind_matches(m[key], schema[k - 1].1) {
                    Err(MappingErrorModel::WrongType { key })
                } else {
                    Ok(vs.push(m[key]))
                }
            },
        }
    }
}

pub open spec fn schema_view(v: Seq<(String, ValueKind)>) -> Seq<(Seq<char>, ValueKind)> {
    v.map_values(|f: (String, ValueKind)| (f.0@, f.1))
}

pub open spec fn values_view(v: Seq<Value>) -> Seq<ValueModel> {
    v.map_values(|x: Value| x@)
}

proof fn lemma_projection_error_stays(
    m: Map<Seq<char>, ValueModel>,
    schema: Seq<(Seq<char>, ValueKind)>,
    k: nat,
    n: nat,
)
    requires
        k <= n,
        projected(m, schema, k).is_err(),
    ensures
        projected(m, schema, n) == projected(m, schema, k),
    decreases n - k,
{
    if k < n {
        lemma_projection_error_stays(m, schema, k, (n - 1) as nat);
    }
}

fn kind_of(v: &Value, k: ValueKind) -> (r: bool)
    ensures
        r == kind_matches(v@, k),
{
    match (v, k) {
        (Value::Double(_), ValueKind::Double) => true,
        (Value::Long(_), ValueKind::Long) => true,
        (Value::UnsignedLong(_), ValueKind::UnsignedLong) => true,
        (Value::Bool(_), ValueKind::Bool) => true,
        (Value::String(_), ValueKind::String) => true,
        (Value::Duration(_), ValueKind::Duration) => true,
        (Value::TimeRFC(_), ValueKind::TimeRFC) => true,
        (Value::Base64Binary(_), ValueKind::Base64Binary) => true,
        _ => false,
    }
}

/// Reads the schema's fields from a record, in schema order.
pub fn project(map: &GenericMap, schema: &Vec<(String, ValueKind)>) -> (r: Result<
    Vec<Value>,
    MappingError,
>)
    ensures
        match r {
            Ok(v) => projected(map@, schema_view(schema@), schema@.len() as nat) == Ok::<
                Seq<ValueModel>,
                MappingErrorModel,
            >(values_view(v@)),
            Err(e) => projected(map@, schema_view(schema@), schema@.len() as nat) == Err::<
                Seq<ValueModel>,
                MappingErrorModel,
            >(e@),
        },
{
    let ghost sv = schema_view(schema@);
    let n = schema.len();
    let mut out: Vec<Value> = Vec::new();
    let mut k: usize = 0;
    assert(values_view(out@) =~= Seq::empty());
    while k < n
        invariant
            n == schema@.len(),
            sv == schema_view(schema@),
            k <= n,
            projected(map@, sv, k as nat) == Ok::<Seq<ValueModel>, MappingErrorModel>(
                values_view(out@),
            ),
        decreases n - k,
    {
        let name = &schema[k].0;
        assert(sv[k as int] == (name@, schema@[k as int].1));
        let key = if map.contains_key(name) {
            name.clone()
        } else {
            let mut u = String::from_str("_");
            u.append(name.as_str());
            u
        };
        match map.get(&key) {
            None => {
                proof { lemma_projection_error_stays(map@, sv, (k + 1) as nat, n as nat); }
                return Err(MappingError::Missing { key });
            },
            Some(v) => {
                if !kind_of(v, schema[k].1) {
                    proof { lemma_projection_error_stays(map@, sv, (k + 1) as nat, n as nat); }
                    return Err(MappingError::WrongType { key });
                }
                let ghost before = values_view(out@);
                out.push(v.duplicate());
                assert(values_view(out@) =~= before.push(map@[key@]));
            },
        }
        k = k + 1;
    }
    Ok(out)
}

} // verus!
