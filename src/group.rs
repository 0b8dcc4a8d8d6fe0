//! Folds per-field records into one composite record per tag/time key.

use vstd::prelude::*;
use crate::error::{DecodeError, DecodeErrorModel};
use crate::map::GenericMap;
use crate::reader::{collect_records, records_of, records_view, FluxRecord, RecordModel};
use crate::value::{Value, ValueModel};

verus! {

pub type ValueMap = Map<Seq<char>, ValueModel>;

/// A record's grouping key: its values without `_field`, `_value` and
/// `table`.
pub open spec fn key_of(values: ValueMap) -> ValueMap {
    values.remove("_field"@).remove("_value"@).remove("table"@)
}

/// The field name (the `_field` text) and field value (`_value`) of a
/// record, where it has both.
pub open spec fn field_pair(values: ValueMap) -> Option<(Seq<char>, ValueModel)> {
    if values.contains_key("_field"@) && values.contains_key("_value"@) {
        match values["_field"@] {
            ValueModel::String(f) => Some((f, values["_value"@])),
            _ => None,
        }
    } else {
        None
    }
}

/// Where key `k` stands among the groups, if it does.
pub open spec fn key_index(groups: Seq<(ValueMap, ValueMap)>, k: ValueMap) -> Option<int>
    decreases groups.len(),
{
    if groups.len() == 0 {
        None
    } else if groups.last().0 == k {
        Some(groups.len() - 1)
    } else {
        key_index(groups.drop_last(), k)
    }
}

/// The groups of some records, in the order their keys first appear: each
/// a key and its composite record. The first record with a key gives all
/// its values plus its field pair; each later one adds its field pair.
pub open spec fn grouped(recs: Seq<RecordModel>) -> Result<
    Seq<(ValueMap, ValueMap)>,
    DecodeErrorModel,
>
    decreases recs.len(),
{
    if recs.len() == 0 {
        Ok(Seq::empty())
    } else {
        match grouped(recs.drop_last()) {
            Err(e) => Err(e),
            Ok(acc) => {
                let r = recs.last();
                match field_pair(r.values) {
                    None => Err(DecodeErrorModel::MissingFieldColumn),
                    Some(p) => {
                        let k = key_of(r.values);
                        match key_index(acc, k) {
                            Some(i) => Ok(acc.update(i, (k, acc[i].1.insert(p.0, p.1)))),
                            None => Ok(acc.push((k, r.values.insert(p.0, p.1)))),
                        }
                    },
                }
            },
        }
    }
}

/// The composite records of some groups, in order.
pub open spec fn composites(groups: Seq<(ValueMap, ValueMap)>) -> Seq<ValueMap> {
    groups.map_values(|g: (ValueMap, ValueMap)| g.1)
}

pub open spec fn maps_view(v: Seq<GenericMap>) -> Seq<ValueMap> {
    v.map_values(|m: GenericMap| m@)
}

proof fn lemma_key_index_bounds(groups: Seq<(ValueMap, ValueMap)>, k: ValueMap)
    ensures
        match key_index(groups, k) {
            Some(i) => 0 <= i < groups.len() && groups[i].0 == k,
            None => forall|j: int| 0 <= j < groups.len() ==> groups[j].0 != k,
        },
    decreases groups.len(),
{
    if groups.len() > 0 && groups.last().0 != k {
        lemma_key_index_bounds(groups.drop_last(), k);
        match key_index(groups.drop_last(), k) {
            Some(i) => {},
            None => {
                assert forall|j: int| 0 <= j < groups.len() implies groups[j].0 != k by {
                    if j < groups.len() - 1 {
                        assert(groups[j] == groups.drop_last()[j]);
                    }
                }
            },
        }
    }
}

proof fn lemma_grouped_error_stays(recs: Seq<RecordModel>, k: int)
    requires
        0 <= k <= recs.len(),
        grouped(recs.subrange(0, k)).is_err(),
    ensures
        grouped(recs) == grouped(recs.subrange(0, k)),
    decreases recs.len() - k,
{
    if k < recs.len() {
        assert(recs.drop_last().subrange(0, k) =~= recs.subrange(0, k));
        lemma_grouped_error_stays(recs.drop_last(), k);
    } else {
        assert(recs.subrange(0, k) =~= recs);
    }
}

/// The composite records of a query response.
#[derive(Clone, Debug)]
pub struct QueryResult {
    pub items: Vec<GenericMap>,
}

fn find_key(keys: &Vec<GenericMap>, k: &GenericMap) -> (r: Option<usize>)
    ensures
        match r {
            Some(i) => i < keys@.len() && keys@[i as int]@ == k@ && forall|j: int|
                i < j < keys@.len() ==> keys@[j]@ != k@,
            None => forall|j: int| 0 <= j < keys@.len() ==> keys@[j]@ != k@,
        },
{
    let mut i = keys.len();
    while i > 0
        invariant
            i <= keys@.len(),
            forall|j: int| i <= j < keys@.len() ==> keys@[j]@ != k@,
        decreases i,
    {
        i = i - 1;
        if keys[i].eq(k) {
            return Some(i);
        }
    }
    None
}

proof fn lemma_key_index_is_last(groups: Seq<(ValueMap, ValueMap)>, k: ValueMap, i: int)
    requires
        0 <= i < groups.len(),
        groups[i].0 == k,
        forall|j: int| i < j < groups.len() ==> groups[j].0 != k,
    ensures
        key_index(groups, k) == Some(i),
    decreases groups.len(),
{
    if i < groups.len() - 1 {
        lemma_key_index_is_last(groups.drop_last(), k, i);
    }
}

proof fn lemma_key_index_none(groups: Seq<(ValueMap, ValueMap)>, k: ValueMap)
    requires
        forall|j: int| 0 <= j < groups.len() ==> groups[j].0 != k,
    ensures
        key_index(groups, k).is_none(),
    decreases groups.len(),
{
    if groups.len() > 0 {
        lemma_key_index_none(groups.drop_last(), k);
    }
}

pub open spec fn groups_of(keys: Seq<GenericMap>, items: Seq<GenericMap>) -> Seq<
    (ValueMap, ValueMap),
> {
    Seq::new(keys.len(), |j: int| (keys[j]@, items[j]@))
}

impl QueryResult {
    /// Groups records by key, in the order keys first appear.
    pub fn from_records(records: &Vec<FluxRecord>) -> (r: Result<QueryResult, DecodeError>)
        ensures
            match r {
                Ok(q) => grouped(records_view(records@)) is Ok && maps_view(q.items@)
                    == composites(grouped(records_view(records@))->Ok_0),
                Err(e) => grouped(records_view(records@)) == Err::<
                    Seq<(ValueMap, ValueMap)>,
                    DecodeErrorModel,
                >(e@),
            },
    {
        let ghost recs = records_view(records@);
        let field_key = String::from_str("_field");
        let value_key = String::from_str("_value");
        let table_key = String::from_str("table");
        let mut keys: Vec<GenericMap> = Vec::new();
        let mut items: Vec<GenericMap> = Vec::new();
        let n = records.len();
        let mut i: usize = 0;
        assert(recs.subrange(0, 0) =~= Seq::<RecordModel>::empty());
        assert(groups_of(keys@, items@) =~= Seq::<(ValueMap, ValueMap)>::empty());
        while i < n
            invariant
                n == records@.len(),
                recs == records_view(records@),
                recs.len() == n,
                i <= n,
                field_key@ == "_field"@,
                value_key@ == "_value"@,
                table_key@ == "table"@,
                keys@.len() == items@.len(),
                grouped(recs.subrange(0, i as int)) == Ok::<
                    Seq<(ValueMap, ValueMap)>,
                    DecodeErrorModel,
                >(groups_of(keys@, items@)),
            decreases n - i,
        {
            let ghost acc = groups_of(keys@, items@);
            let values = &records[i].values;
            assert(recs[i as int].values == values@);
            assert(recs.subrange(0, i + 1).drop_last() =~= recs.subrange(0, i as int));
            assert(recs.subrange(0, i + 1).last() == recs[i as int]);
            let f = match values.get(&field_key) {
                Some(Value::String(f)) => f.clone(),
                _ => {
                    proof { lemma_grouped_error_stays(recs, i + 1); }
                    assert(recs.subrange(0, n as int) =~= recs);
                    return Err(DecodeError::MissingFieldColumn);
                },
            };
            let v = match values.get(&value_key) {
                Some(v) => v.duplicate(),
                None => {
                    proof { lemma_grouped_error_stays(recs, i + 1); }
                    assert(recs.subrange(0, n as int) =~= recs);
                    return Err(DecodeError::MissingFieldColumn);
                },
            };
            let key = values.without(&field_key).without(&value_key).without(&table_key);
            match find_key(&keys, &key) {
                Some(j) => {
                    proof { lemma_key_index_is_last(acc, key@, j as int); }
                    let mut m = items[j].duplicate();
                    m.insert(f, v);
                    items.set(j, m);
                    assert(groups_of(keys@, items@) =~= acc.update(
                        j as int,
                        (key@, acc[j as int].1.insert(f@, v@)),
                    ));
                },
                None => {
                    proof { lemma_key_index_none(acc, key@); }
                    let mut m = values.duplicate();
                    m.insert(f, v);
                    keys.push(key);
                    items.push(m);
                    assert(groups_of(keys@, items@) =~= acc.push(
                        (keys@[keys@.len() - 1]@, items@[items@.len() - 1]@),
                    ));
                },
            }
            i = i + 1;
        }
        assert(recs.subrange(0, n as int) =~= recs);
        assert(maps_view(items@) =~= composites(groups_of(keys@, items@)));
        Ok(QueryResult { items })
    }

    /// Reads a query response and groups its records.
    pub fn new(text: &str) -> (r: Result<QueryResult, DecodeError>)
        ensures
            match r {
                Ok(q) => records_of(text@) is Ok && grouped(records_of(text@)->Ok_0) is Ok
                    && maps_view(q.items@) == composites(grouped(records_of(text@)->Ok_0)->Ok_0),
                Err(e) => records_of(text@) == Err::<Seq<RecordModel>, DecodeErrorModel>(e@) || (
                records_of(text@) is Ok && grouped(records_of(text@)->Ok_0) == Err::<
                    Seq<(ValueMap, ValueMap)>,
                    DecodeErrorModel,
                >(e@)),
            },
    {
        let records = collect_records(text)?;
        QueryResult::from_records(&records)
    }
}

/// Two records of one key with their field pairs become a single composite
/// record: the first record's values with both field pairs set.
pub proof fn lemma_same_key_merges(r1: RecordModel, r2: RecordModel)
    requires
        field_pair(r1.values).is_some(),
        field_pair(r2.values).is_some(),
        key_of(r1.values) == key_of(r2.values),
    ensures
        grouped(seq![r1, r2]) == Ok::<Seq<(ValueMap, ValueMap)>, DecodeErrorModel>(
            seq![
                (
                    key_of(r1.values),
                    r1.values.insert(field_pair(r1.values).unwrap().0, field_pair(r1.values).unwrap().1)
                        .insert(field_pair(r2.values).unwrap().0, field_pair(r2.values).unwrap().1),
                ),
            ],
        ),
{
    let p1 = field_pair(r1.values).unwrap();
    let p2 = field_pair(r2.values).unwrap();
    let k = key_of(r1.values);
    let one = seq![r1];
    assert(one.drop_last() =~= Seq::<RecordModel>::empty());
    assert(one.last() == r1);
    assert(grouped(Seq::<RecordModel>::empty()) == Ok::<Seq<(ValueMap, ValueMap)>, DecodeErrorModel>(
        Seq::empty(),
    ));
    assert(key_index(Seq::<(ValueMap, ValueMap)>::empty(), k).is_none());
    let g1 = seq![(k, r1.values.insert(p1.0, p1.1))];
    assert(grouped(one) == Ok::<Seq<(ValueMap, ValueMap)>, DecodeErrorModel>(
        Seq::<(ValueMap, ValueMap)>::empty().push((k, r1.values.insert(p1.0, p1.1))),
    ));
    assert(Seq::<(ValueMap, ValueMap)>::empty().push((k, r1.values.insert(p1.0, p1.1))) =~= g1);
    assert(seq![r1, r2].drop_last() =~= one);
    assert(key_index(g1, k) == Some(0int));
    assert(g1.update(0, (k, g1[0].1.insert(p2.0, p2.1))) =~= seq![
        (k, r1.values.insert(p1.0, p1.1).insert(p2.0, p2.1)),
    ]);
}

/// The distinct keys of a sequence, in order of first appearance.
pub open spec fn first_seen(keys: Seq<ValueMap>) -> Seq<ValueMap>
    decreases keys.len(),
{
    if keys.len() == 0 {
        Seq::empty()
    } else {
        let f = first_seen(keys.drop_last());
        if f.contains(keys.last()) {
            f
        } else {
            f.push(keys.last())
        }
    }
}

pub open spec fn record_keys(recs: Seq<RecordModel>) -> Seq<ValueMap> {
    recs.map_values(|r: RecordModel| key_of(r.values))
}

pub open spec fn group_keys(groups: Seq<(ValueMap, ValueMap)>) -> Seq<ValueMap> {
    groups.map_values(|g: (ValueMap, ValueMap)| g.0)
}

proof fn lemma_first_seen_distinct(keys: Seq<ValueMap>)
    ensures
        first_seen(keys).no_duplicates(),
    decreases keys.len(),
{
    if keys.len() > 0 {
        lemma_first_seen_distinct(keys.drop_last());
    }
}

/// Grouping gives exactly one composite record per distinct key, in the
/// order in which the keys first appear among the records.
pub proof fn lemma_one_group_per_key(recs: Seq<RecordModel>)
    requires
        grouped(recs) is Ok,
    ensures
        group_keys(grouped(recs)->Ok_0) == first_seen(record_keys(recs)),
        group_keys(grouped(recs)->Ok_0).no_duplicates(),
    decreases recs.len(),
{
    lemma_first_seen_distinct(record_keys(recs));
    if recs.len() > 0 {
        let prev = recs.drop_last();
        lemma_one_group_per_key(prev);
        let acc = grouped(prev)->Ok_0;
        let k = key_of(recs.last().values);
        let p = field_pair(recs.last().values).unwrap();
        assert(record_keys(recs).drop_last() =~= record_keys(prev));
        assert(record_keys(recs).last() == k);
        lemma_key_index_bounds(acc, k);
        match key_index(acc, k) {
            Some(i) => {
                assert(group_keys(acc)[i] == k);
                assert(first_seen(record_keys(prev)).contains(k));
                assert(group_keys(acc.update(i, (k, acc[i].1.insert(p.0, p.1)))) =~= group_keys(
                    acc,
                ));
            },
            None => {
                assert(!first_seen(record_keys(prev)).contains(k)) by {
                    if first_seen(record_keys(prev)).contains(k) {
                        let j = choose|j: int|
                            0 <= j < group_keys(acc).len() && group_keys(acc)[j] == k;
                        assert(acc[j].0 == k);
                    }
                }
                assert(group_keys(acc.push((k, recs.last().values.insert(p.0, p.1))))
                    =~= group_keys(acc).push(k));
            },
        }
    }
}

} // verus!
