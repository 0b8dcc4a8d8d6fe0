//! Schema queries: the Flux text that asks for measurements, field keys,
//! tag keys or tag values, and the values read from their answers.

use vstd::prelude::*;

verus! {

/// The records (after the header row, skipping `#` comment lines and
/// records that cannot be read) that CSV reading finds in a text.
pub uninterp spec fn csv_data_rows(text: Seq<char>) -> Seq<Seq<Seq<char>>>;

pub open spec fn cells_view(rows: Seq<Vec<String>>) -> Seq<Seq<Seq<char>>> {
    rows.map_values(|r: Vec<String>| r@.map_values(|c: String| c@))
}

/// Relies on the `csv` crate's `Reader` (built with a header row and `#` as
/// the comment byte): the records after the header, less any that fail.
#[verifier::external_body]
fn read_data_rows(text: &str) -> (r: Vec<Vec<String>>)
    ensures
        cells_view(r@) == csv_data_rows(text@),
{
    let mut reader = csv::ReaderBuilder::new().has_headers(true).comment(Some(b'#')).from_reader(
        text.as_bytes(),
    );
    let mut rows = Vec::new();
    for record in reader.records().flatten() {
        rows.push(record.iter().map(String::from).collect());
    }
    rows
}

/// Cell 3 of each row that has one, in order.
pub open spec fn fourth_cells(rows: Seq<Seq<Seq<char>>>) -> Seq<Seq<char>>
    decreases rows.len(),
{
    if rows.len() == 0 {
        Seq::empty()
    } else {
        fourth_cells(rows.drop_last()) + if rows.last().len() > 3 {
            seq![rows.last()[3]]
        } else {
            Seq::empty()
        }
    }
}

pub open spec fn strings_view(v: Seq<String>) -> Seq<Seq<char>> {
    v.map_values(|s: String| s@)
}

/// The values that a schema query's answer lists: cell 3 of each record.
pub fn schema_values(text: &str) -> (r: Vec<String>)
    ensures
        strings_view(r@) == fourth_cells(csv_data_rows(text@)),
{
    let rows = read_data_rows(text);
    let ghost rv = cells_view(rows@);
    let mut out: Vec<String> = Vec::new();
    let mut i: usize = 0;
    assert(strings_view(out@) =~= Seq::empty());
    while i < rows.len()
        invariant
            i <= rows@.len(),
            rv == cells_view(rows@),
            strings_view(out@) == fourth_cells(rv.subrange(0, i as int)),
        decreases rows@.len() - i,
    {
        assert(rv.subrange(0, i + 1).drop_last() =~= rv.subrange(0, i as int));
        assert(rv[i as int] == rows@[i as int]@.map_values(|c: String| c@));
        let ghost before = strings_view(out@);
        if rows[i].len() > 3 {
            out.push(rows[i][3].clone());
            assert(strings_view(out@) =~= before + seq![rv[i as int][3]]);
        } else {
            assert(strings_view(out@) =~= before + Seq::<Seq<char>>::empty());
        }
        i = i + 1;
    }
    assert(rv.subrange(0, rows@.len() as int) =~= rv);
    out
}

/// Parameters joined by `, `.
pub open spec fn joined(items: Seq<Seq<char>>) -> Seq<char>
    decreases items.len(),
{
    if items.len() == 0 {
        Seq::empty()
    } else if items.len() == 1 {
        items[0]
    } else {
        joined(items.drop_last()) + ", "@ + items.last()
    }
}

pub open spec fn quoted_param(name: Seq<char>, value: Seq<char>) -> Seq<char> {
    name + ": \""@ + value + "\""@
}

pub open spec fn plain_param(name: Seq<char>, value: Seq<char>) -> Seq<char> {
    name + ": "@ + value
}

pub open spec fn opt_param(present: bool, p: Seq<char>) -> Seq<Seq<char>> {
    if present {
        seq![p]
    } else {
        Seq::empty()
    }
}

/// The parameters of a schema call: the quoted bucket, measurement and tag
/// where given, then the start and stop expressions where given.
pub open spec fn schema_params(
    bucket: Seq<char>,
    measurement: Option<Seq<char>>,
    tag: Option<Seq<char>>,
    start: Option<Seq<char>>,
    stop: Option<Seq<char>>,
) -> Seq<Seq<char>> {
    seq![quoted_param("bucket"@, bucket)] + opt_param(
        measurement is Some,
        quoted_param("measurement"@, measurement->Some_0),
    ) + opt_param(tag is Some, quoted_param("tag"@, tag->Some_0)) + opt_param(
        start is Some,
        plain_param("start"@, start->Some_0),
    ) + opt_param(stop is Some, plain_param("stop"@, stop->Some_0))
}

pub open spec fn schema_query_text(function: Seq<char>, params: Seq<Seq<char>>) -> Seq<char> {
    "import \"influxdata/influxdb/schema\"\n\n            schema."@ + function + "("@ + joined(
        params,
    ) + ")"@
}

pub open spec fn opt_view(o: Option<&str>) -> Option<Seq<char>> {
    match o {
        Some(s) => Some(s@),
        None => None,
    }
}

fn push_quoted_param(params: &mut Vec<String>, name: &str, value: &str)
    ensures
        strings_view(final(params)@) == strings_view(old(params)@).push(quoted_param(name@, value@)),
{
    let mut p = name.to_owned();
    p.append(": \"");
    p.append(value);
    p.append("\"");
    params.push(p);
    assert(strings_view(final(params)@) =~= strings_view(old(params)@).push(quoted_param(name@, value@)));
}

fn push_plain_param(params: &mut Vec<String>, name: &str, value: &str)
    ensures
        strings_view(final(params)@) == strings_view(old(params)@).push(plain_param(name@, value@)),
{
    let mut p = name.to_owned();
    p.append(": ");
    p.append(value);
    params.push(p);
    assert(strings_view(final(params)@) =~= strings_view(old(params)@).push(plain_param(name@, value@)));
}

/// The Flux text of a call of `schema.<function>` with its parameters.
pub fn schema_query(
    function: &str,
    bucket: &str,
    measurement: Option<&str>,
    tag: Option<&str>,
    start: Option<&str>,
    stop: Option<&str>,
) -> (r: String)
    ensures
        r@ == schema_query_text(
            function@,
            schema_params(bucket@, opt_view(measurement), opt_view(tag), opt_view(start), opt_view(stop)),
        ),
{
    let ghost want = schema_params(bucket@, opt_view(measurement), opt_view(tag), opt_view(start), opt_view(stop));
    let mut params: Vec<String> = Vec::new();
    push_quoted_param(&mut params, "bucket", bucket);
    if let Some(m) = measurement {
        push_quoted_param(&mut params, "measurement", m);
    }
    if let Some(t) = tag {
        push_quoted_param(&mut params, "tag", t);
    }
    if let Some(s) = start {
        push_plain_param(&mut params, "start", s);
    }
    if let Some(s) = stop {
        push_plain_param(&mut params, "stop", s);
    }
    assert(strings_view(params@) =~= want);
    let mut r = String::from_str("import \"influxdata/influxdb/schema\"\n\n            schema.");
    r.append(function);
    r.append("(");
    let ghost head = r@;
    let mut i: usize = 0;
    while i < params.len()
        invariant
            i <= params@.len(),
            strings_view(params@) == want,
            r@ == head + joined(want.subrange(0, i as int)),
        decreases params@.len() - i,
    {
        assert(want.subrange(0, i + 1).drop_last() =~= want.subrange(0, i as int));
        assert(want[i as int] == params@[i as int]@);
        if i > 0 {
            r.append(", ");
        }
        r.append(params[i].as_str());
        i = i + 1;
        assert(r@ =~= head + joined(want.subrange(0, i as int)));
    }
    assert(want.subrange(0, params@.len() as int) =~= want);
    r.append(")");
    assert(r@ =~= schema_query_text(function@, want));
    r
}

} // verus!
