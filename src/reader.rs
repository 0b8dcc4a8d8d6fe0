//! The annotated-CSV reader: a state machine over the rows of a query
//! response that yields one `FluxRecord` per data row.

use vstd::prelude::*;
use crate::codec::{cell_value, parse_value};
use crate::error::{DecodeError, DecodeErrorModel};
use crate::map::GenericMap;
use crate::text::text_is;
use crate::value::{DataType, ValueModel};

verus! {

/// The rows and cells that CSV reading (no header row, rows of any width)
/// finds in a text, if it is readable.
pub uninterp spec fn csv_records(text: Seq<char>) -> Option<Seq<Seq<Seq<char>>>>;

pub open spec fn rows_view(rows: Seq<Vec<String>>) -> Seq<Seq<Seq<char>>> {
    rows.map_values(|r: Vec<String>| r@.map_values(|c: String| c@))
}

/// Relies on the `csv` crate's `Reader` (built without headers and with
/// `flexible`): the rows of the text and their cells, or an error.
#[verifier::external_body]
fn read_csv_rows(text: &str) -> (r: Option<Vec<Vec<String>>>)
    ensures
        match r {
            Some(rows) => csv_records(text@) == Some(rows_view(rows@)),
            None => csv_records(text@).is_none(),
        },
{
    let mut reader = csv::ReaderBuilder::new().has_headers(false).flexible(true).from_reader(
        text.as_bytes(),
    );
    let mut rows = Vec::new();
    for record in reader.records() {
        match record {
            Ok(r) => rows.push(r.iter().map(String::from).collect()),
            Err(_) => return None,
        }
    }
    Some(rows)
}

/// One column of a table's schema.
#[derive(Clone, Debug)]
pub struct FluxColumn {
    pub name: String,
    pub data_type: DataType,
    pub group: bool,
    pub default_value: String,
}

pub struct ColumnModel {
    pub name: Seq<char>,
    pub data_type: DataType,
    pub group: bool,
    pub default_value: Seq<char>,
}

impl View for FluxColumn {
    type V = ColumnModel;

    open spec fn view(&self) -> ColumnModel {
        ColumnModel {
            name: self.name@,
            data_type: self.data_type,
            group: self.group,
            default_value: self.default_value@,
        }
    }
}

/// A table's position in the response and its columns.
#[derive(Clone, Debug)]
pub struct FluxTableMetadata {
    pub position: usize,
    pub columns: Vec<FluxColumn>,
}

pub struct TableModel {
    pub position: nat,
    pub columns: Seq<ColumnModel>,
}

pub open spec fn columns_view(c: Seq<FluxColumn>) -> Seq<ColumnModel> {
    c.map_values(|x: FluxColumn| x@)
}

impl View for FluxTableMetadata {
    type V = TableModel;

    open spec fn view(&self) -> TableModel {
        TableModel { position: self.position as nat, columns: columns_view(self.columns@) }
    }
}

/// One decoded data row: the position of its table and its values by
/// column name.
#[derive(Clone, Debug)]
pub struct FluxRecord {
    pub table: usize,
    pub values: GenericMap,
}

pub struct RecordModel {
    pub table: nat,
    pub values: Map<Seq<char>, ValueModel>,
}

impl View for FluxRecord {
    type V = RecordModel;

    open spec fn view(&self) -> RecordModel {
        RecordModel { table: self.table as nat, values: self.values@ }
    }
}

impl PartialEq for FluxRecord {
    fn eq(&self, other: &FluxRecord) -> (r: bool)
        ensures
            r == (self@ == other@),
    {
        self.table == other.table && self.values.eq(&other.values)
    }
}

impl vstd::std_specs::cmp::PartialEqSpecImpl for FluxRecord {
    open spec fn obeys_eq_spec() -> bool {
        true
    }

    open spec fn eq_spec(&self, other: &FluxRecord) -> bool {
        self@ == other@
    }
}

/// What the reader is in the middle of.
#[derive(Clone, Copy, Debug, PartialEq, Eq, Structural)]
pub enum ParsingState {
    /// Reading data rows.
    Normal,
    /// Reading the annotation rows and header of a new table.
    Annotation,
    /// The current table reports a query error.
    Error,
}

/// The reader's state between rows.
pub struct ScanState {
    pub position: nat,
    pub table: Option<TableModel>,
    pub state: ParsingState,
    pub datatype_found: bool,
}

/// What one row does.
pub enum Step {
    Continue(ScanState),
    Emit(ScanState, RecordModel),
    Fail(DecodeErrorModel),
}

/// What one call of `next` yields.
pub enum Outcome {
    End,
    Record(RecordModel),
    Fail(DecodeErrorModel),
}

pub open spec fn blank_column() -> ColumnModel {
    ColumnModel {
        name: Seq::empty(),
        data_type: DataType::String,
        group: false,
        default_value: Seq::empty(),
    }
}

/// The columns of a table just opened: unnamed strings without defaults.
pub open spec fn blank_columns_model(n: nat) -> Seq<ColumnModel> {
    Seq::new(n, |j: int| blank_column())
}

pub open spec fn opens_table(first: Seq<char>) -> bool {
    first.len() > 0 && first[0] == '#'
}

/// The columns after a `#datatype` row has set the types of the first `k`.
pub open spec fn typed_columns(cols: Seq<ColumnModel>, row: Seq<Seq<char>>, k: nat) -> Result<
    Seq<ColumnModel>,
    DecodeErrorModel,
>
    decreases k,
{
    if k == 0 {
        Ok(cols)
    } else {
        match typed_columns(cols, row, (k - 1) as nat) {
            Err(e) => Err(e),
            Ok(cs) => match crate::codec::data_type_of(row[k as int]) {
                Some(t) => Ok(
                    cs.update(
                        k - 1,
                        ColumnModel {
                            name: cs[k - 1].name,
                            data_type: t,
                            group: cs[k - 1].group,
                            default_value: cs[k - 1].default_value,
                        },
                    ),
                ),
                None => Err(DecodeErrorModel::UnknownDataType { token: row[k as int] }),
            },
        }
    }
}

pub open spec fn grouped_columns(cols: Seq<ColumnModel>, row: Seq<Seq<char>>) -> Seq<ColumnModel> {
    Seq::new(
        cols.len(),
        |j: int|
            ColumnModel {
                name: cols[j].name,
                data_type: cols[j].data_type,
                group: row[j + 1] == "true"@,
                default_value: cols[j].default_value,
            },
    )
}

pub open spec fn defaulted_columns(cols: Seq<ColumnModel>, row: Seq<Seq<char>>) -> Seq<
    ColumnModel,
> {
    Seq::new(
        cols.len(),
        |j: int|
            ColumnModel {
                name: cols[j].name,
                data_type: cols[j].data_type,
                group: cols[j].group,
                default_value: row[j + 1],
            },
    )
}

pub open spec fn named_columns(cols: Seq<ColumnModel>, row: Seq<Seq<char>>) -> Seq<ColumnModel> {
    Seq::new(
        cols.len(),
        |j: int|
            ColumnModel {
                name: row[j + 1],
                data_type: cols[j].data_type,
                group: cols[j].group,
                default_value: cols[j].default_value,
            },
    )
}

/// A cell, or the column's default where the cell is empty.
pub open spec fn effective_cell(cell: Seq<char>, c: ColumnModel) -> Seq<char> {
    if cell.len() == 0 {
        c.default_value
    } else {
        cell
    }
}

/// The values of the first `k` cells after the marker, by column name
/// (a later column of the same name wins), or the first cell that fails.
pub open spec fn row_values(cols: Seq<ColumnModel>, row: Seq<Seq<char>>, k: nat) -> Result<
    Map<Seq<char>, ValueModel>,
    DecodeErrorModel,
>
    decreases k,
{
    if k == 0 {
        Ok(Map::empty())
    } else {
        match row_values(cols, row, (k - 1) as nat) {
            Err(e) => Err(e),
            Ok(m) => {
                let c = cols[k - 1];
                let cell = effective_cell(row[k as int], c);
                match cell_value(cell, c.data_type) {
                    Some(v) => Ok(m.insert(c.name, v)),
                    None => Err(
                        DecodeErrorModel::ValueParseFailure {
                            data_type: c.data_type,
                            column: c.name,
                            cell,
                        },
                    ),
                }
            },
        }
    }
}

/// The message of an error table's row: cell 1 (or a stock text where it
/// is empty), then a comma and cell 2 where that is present and not empty.
pub open spec fn error_message(row: Seq<Seq<char>>) -> Seq<char> {
    let msg = if row.len() > 1 && row[1].len() > 0 {
        row[1]
    } else {
        "unknown query error"@
    };
    if row.len() > 2 && row[2].len() > 0 {
        msg + ","@ + row[2]
    } else {
        msg
    }
}

/// What one row does to the reader.
pub open spec fn row_step(st: ScanState, row: Seq<Seq<char>>) -> Step {
    if row.len() <= 1 {
        Step::Continue(st)
    } else {
        let st1 = if opens_table(row[0]) && st.state == ParsingState::Normal {
            ScanState {
                position: st.position + 1,
                table: Some(
                    TableModel {
                        position: st.position,
                        columns: blank_columns_model((row.len() - 1) as nat),
                    },
                ),
                state: ParsingState::Annotation,
                datatype_found: false,
            }
        } else {
            st
        };
        match st1.table {
            None => Step::Fail(DecodeErrorModel::AnnotationsNotFound),
            Some(tb) => if row.len() - 1 != tb.columns.len() {
                Step::Fail(
                    DecodeErrorModel::ColumnCountMismatch {
                        row: (row.len() - 1) as nat,
                        table: tb.columns.len(),
                    },
                )
            } else if row[0].len() == 0 {
                match st1.state {
                    ParsingState::Annotation => if !st1.datatype_found {
                        Step::Fail(DecodeErrorModel::MalformedAnnotation)
                    } else if row[1] == "error"@ {
                        Step::Continue(
                            ScanState {
                                position: st1.position,
                                table: st1.table,
                                state: ParsingState::Error,
                                datatype_found: st1.datatype_found,
                            },
                        )
                    } else {
                        Step::Continue(
                            ScanState {
                                position: st1.position,
                                table: Some(
                                    TableModel {
                                        position: tb.position,
                                        columns: named_columns(tb.columns, row),
                                    },
                                ),
                                state: ParsingState::Normal,
                                datatype_found: st1.datatype_found,
                            },
                        )
                    },
                    ParsingState::Error => Step::Fail(
                        DecodeErrorModel::QueryErrorRow { message: error_message(row) },
                    ),
                    ParsingState::Normal => match row_values(
                        tb.columns,
                        row,
                        tb.columns.len(),
                    ) {
                        Ok(m) => Step::Emit(st1, RecordModel { table: tb.position, values: m }),
                        Err(e) => Step::Fail(e),
                    },
                }
            } else if row[0] == "#datatype"@ {
                match typed_columns(tb.columns, row, tb.columns.len()) {
                    Ok(cs) => Step::Continue(
                        ScanState {
                            position: st1.position,
                            table: Some(TableModel { position: tb.position, columns: cs }),
                            state: st1.state,
                            datatype_found: true,
                        },
                    ),
                    Err(e) => Step::Fail(e),
                }
            } else if row[0] == "#group"@ {
                Step::Continue(
                    ScanState {
                        position: st1.position,
                        table: Some(
                            TableModel {
                                position: tb.position,
                                columns: grouped_columns(tb.columns, row),
                            },
                        ),
                        state: st1.state,
                        datatype_found: st1.datatype_found,
                    },
                )
            } else if row[0] == "#default"@ {
                Step::Continue(
                    ScanState {
                        position: st1.position,
                        table: Some(
                            TableModel {
                                position: tb.position,
                                columns: defaulted_columns(tb.columns, row),
                            },
                        ),
                        state: st1.state,
                        datatype_found: st1.datatype_found,
                    },
                )
            } else {
                Step::Fail(DecodeErrorModel::InvalidFirstCell { cell: row[0] })
            },
        }
    }
}

/// Reads rows from `i` on until one yields a record, one fails, or the rows
/// end; gives the state after, the index of the next row and the outcome.
/// The text may end only between tables or after data rows.
pub open spec fn scan(rows: Seq<Seq<Seq<char>>>, i: int, st: ScanState) -> (ScanState, int, Outcome)
    decreases rows.len() - i,
{
    if i < 0 || i >= rows.len() {
        (
            st,
            i,
            if st.state == ParsingState::Normal {
                Outcome::End
            } else {
                Outcome::Fail(DecodeErrorModel::MalformedAnnotation)
            },
        )
    } else {
        match row_step(st, rows[i]) {
            Step::Continue(st2) => scan(rows, i + 1, st2),
            Step::Emit(st2, rec) => (st2, i + 1, Outcome::Record(rec)),
            Step::Fail(e) => (st, i + 1, Outcome::Fail(e)),
        }
    }
}

/// The state in which each call of `next` starts.
pub open spec fn call_start(position: nat, table: Option<TableModel>) -> ScanState {
    ScanState { position, table, state: ParsingState::Normal, datatype_found: false }
}

pub open spec fn row_cells(row: Vec<String>) -> Seq<Seq<char>> {
    row@.map_values(|c: String| c@)
}

pub open spec fn table_view(t: Option<FluxTableMetadata>) -> Option<TableModel> {
    match t {
        Some(x) => Some(x@),
        None => None,
    }
}

impl FluxColumn {
    fn copy(&self) -> (r: FluxColumn)
        ensures
            r@ == self@,
    {
        FluxColumn {
            name: self.name.clone(),
            data_type: self.data_type,
            group: self.group,
            default_value: self.default_value.clone(),
        }
    }
}

fn blank_columns(n: usize) -> (r: Vec<FluxColumn>)
    ensures
        columns_view(r@) == blank_columns_model(n as nat),
{
    let mut r: Vec<FluxColumn> = Vec::new();
    let mut k: usize = 0;
    while k < n
        invariant
            k <= n,
            r@.len() == k,
            forall|j: int| 0 <= j < k ==> #[trigger] r@[j]@ == blank_column(),
        decreases n - k,
    {
        r.push(
            FluxColumn {
                name: String::new(),
                data_type: DataType::String,
                group: false,
                default_value: String::new(),
            },
        );
        k = k + 1;
    }
    assert(columns_view(r@) =~= blank_columns_model(n as nat));
    r
}

proof fn lemma_typed_error_stays(cols: Seq<ColumnModel>, row: Seq<Seq<char>>, k: nat, n: nat)
    requires
        k <= n,
        typed_columns(cols, row, k).is_err(),
    ensures
        typed_columns(cols, row, n) == typed_columns(cols, row, k),
    decreases n - k,
{
    if k < n {
        lemma_typed_error_stays(cols, row, k, (n - 1) as nat);
    }
}

proof fn lemma_values_error_stays(cols: Seq<ColumnModel>, row: Seq<Seq<char>>, k: nat, n: nat)
    requires
        k <= n,
        row_values(cols, row, k).is_err(),
    ensures
        row_values(cols, row, n) == row_values(cols, row, k),
    decreases n - k,
{
    if k < n {
        lemma_values_error_stays(cols, row, k, (n - 1) as nat);
    }
}

/// The columns with types set from a `#datatype` row.
fn typed(cols: &Vec<FluxColumn>, row: &Vec<String>) -> (r: Result<Vec<FluxColumn>, DecodeError>)
    requires
        row@.len() == cols@.len() + 1,
    ensures
        match r {
            Ok(c) => typed_columns(columns_view(cols@), row_cells(*row), cols@.len() as nat) == Ok::<
                Seq<ColumnModel>,
                DecodeErrorModel,
            >(columns_view(c@)),
            Err(e) => typed_columns(columns_view(cols@), row_cells(*row), cols@.len() as nat)
                == Err::<Seq<ColumnModel>, DecodeErrorModel>(e@),
        },
{
    let ghost cv = columns_view(cols@);
    let ghost rv = row_cells(*row);
    let n = cols.len();
    let mut out: Vec<FluxColumn> = Vec::new();
    let mut k: usize = 0;
    assert(columns_view(out@) + cv.subrange(0, n as int) =~= cv);
    while k < n
        invariant
            n == cols@.len(),
            row@.len() == n + 1,
            cv == columns_view(cols@),
            rv == row_cells(*row),
            k <= n,
            out@.len() == k,
            typed_columns(cv, rv, k as nat) == Ok::<Seq<ColumnModel>, DecodeErrorModel>(
                columns_view(out@) + cv.subrange(k as int, n as int),
            ),
        decreases n - k,
    {
        let ghost before = columns_view(out@) + cv.subrange(k as int, n as int);
        match DataType::from_token(row[k + 1].as_str()) {
            Ok(t) => {
                let c = &cols[k];
                assert(cv[k as int] == c@);
                out.push(
                    FluxColumn {
                        name: c.name.clone(),
                        data_type: t,
                        group: c.group,
                        default_value: c.default_value.clone(),
                    },
                );
                proof {
                    assert(rv[k + 1] == row@[k + 1 as int]@);
                    assert(before[k as int] == cv[k as int]);
                    assert(columns_view(out@) + cv.subrange(k + 1, n as int) =~= before.update(
                        k as int,
                        ColumnModel {
                            name: before[k as int].name,
                            data_type: t,
                            group: before[k as int].group,
                            default_value: before[k as int].default_value,
                        },
                    ));
                }
                k = k + 1;
            },
            Err(e) => {
                proof {
                    assert(rv[k + 1] == row@[k + 1 as int]@);
                    lemma_typed_error_stays(cv, rv, (k + 1) as nat, n as nat);
                }
                return Err(e);
            },
        }
    }
    assert(columns_view(out@) + cv.subrange(n as int, n as int) =~= columns_view(out@));
    Ok(out)
}

/// The columns with their group flags set from a `#group` row.
fn grouped(cols: &Vec<FluxColumn>, row: &Vec<String>) -> (r: Vec<FluxColumn>)
    requires
        row@.len() == cols@.len() + 1,
    ensures
        columns_view(r@) == grouped_columns(columns_view(cols@), row_cells(*row)),
{
    let ghost g = grouped_columns(columns_view(cols@), row_cells(*row));
    let ghost rv = row_cells(*row);
    let ghost cv = columns_view(cols@);
    assert(cv.len() == cols@.len() && rv.len() == row@.len() && g.len() == cv.len());
    let n = cols.len();
    let mut out: Vec<FluxColumn> = Vec::new();
    let mut k: usize = 0;
    while k < n
        invariant
            n == cols@.len(),
            row@.len() == n + 1,
            g == grouped_columns(columns_view(cols@), row_cells(*row)),
            k <= n,
            rv == row_cells(*row),
            cv == columns_view(cols@),
            cv.len() == n,
            rv.len() == n + 1,
            g.len() == n,
            out@.len() == k,
            columns_view(out@) == g.subrange(0, k as int),
        decreases n - k,
    {
        let c = &cols[k];
        assert(cv[k as int] == c@);
        assert(rv[k + 1] == row@[k + 1 as int]@);
        out.push(
            FluxColumn {
                name: c.name.clone(),
                data_type: c.data_type,
                group: text_is(row[k + 1].as_str(), "true"),
                default_value: c.default_value.clone(),
            },
        );
        assert(columns_view(out@) =~= g.subrange(0, k + 1));
        k = k + 1;
    }
    assert(g.subrange(0, n as int) =~= g);
    out
}

/// The columns with their defaults set from a `#default` row.
fn defaulted(cols: &Vec<FluxColumn>, row: &Vec<String>) -> (r: Vec<FluxColumn>)
    requires
        row@.len() == cols@.len() + 1,
    ensures
        columns_view(r@) == defaulted_columns(columns_view(cols@), row_cells(*row)),
{
    let ghost g = defaulted_columns(columns_view(cols@), row_cells(*row));
    let ghost rv = row_cells(*row);
    let ghost cv = columns_view(cols@);
    assert(cv.len() == cols@.len() && rv.len() == row@.len() && g.len() == cv.len());
    let n = cols.len();
    let mut out: Vec<FluxColumn> = Vec::new();
    let mut k: usize = 0;
    while k < n
        invariant
            n == cols@.len(),
            row@.len() == n + 1,
            g == defaulted_columns(columns_view(cols@), row_cells(*row)),
            k <= n,
            rv == row_cells(*row),
            cv == columns_view(cols@),
            cv.len() == n,
            rv.len() == n + 1,
            g.len() == n,
            out@.len() == k,
            columns_view(out@) == g.subrange(0, k as int),
        decreases n - k,
    {
        let c = &cols[k];
        assert(cv[k as int] == c@);
        assert(rv[k + 1] == row@[k + 1 as int]@);
        out.push(
            FluxColumn {
                name: c.name.clone(),
                data_type: c.data_type,
                group: c.group,
                default_value: row[k + 1].clone(),
            },
        );
        assert(columns_view(out@) =~= g.subrange(0, k + 1));
        k = k + 1;
    }
    assert(g.subrange(0, n as int) =~= g);
    out
}

/// The columns with their names set from a header row.
fn named(cols: &Vec<FluxColumn>, row: &Vec<String>) -> (r: Vec<FluxColumn>)
    requires
        row@.len() == cols@.len() + 1,
    ensures
        columns_view(r@) == named_columns(columns_view(cols@), row_cells(*row)),
{
    let ghost g = named_columns(columns_view(cols@), row_cells(*row));
    let ghost rv = row_cells(*row);
    let ghost cv = columns_view(cols@);
    assert(cv.len() == cols@.len() && rv.len() == row@.len() && g.len() == cv.len());
    let n = cols.len();
    let mut out: Vec<FluxColumn> = Vec::new();
    let mut k: usize = 0;
    while k < n
        invariant
            n == cols@.len(),
            row@.len() == n + 1,
            g == named_columns(columns_view(cols@), row_cells(*row)),
            k <= n,
            rv == row_cells(*row),
            cv == columns_view(cols@),
            cv.len() == n,
            rv.len() == n + 1,
            g.len() == n,
            out@.len() == k,
            columns_view(out@) == g.subrange(0, k as int),
        decreases n - k,
    {
        let c = &cols[k];
        assert(cv[k as int] == c@);
        assert(rv[k + 1] == row@[k + 1 as int]@);
        out.push(
            FluxColumn {
                name: row[k + 1].clone(),
                data_type: c.data_type,
                group: c.group,
                default_value: c.default_value.clone(),
            },
        );
        assert(columns_view(out@) =~= g.subrange(0, k + 1));
        k = k + 1;
    }
    assert(g.subrange(0, n as int) =~= g);
    out
}

/// The values of a data row by column name.
fn values_of_row(cols: &Vec<FluxColumn>, row: &Vec<String>) -> (r: Result<GenericMap, DecodeError>)
    requires
        row@.len() == cols@.len() + 1,
    ensures
        match r {
            Ok(m) => row_values(columns_view(cols@), row_cells(*row), cols@.len() as nat) == Ok::<
                Map<Seq<char>, ValueModel>,
                DecodeErrorModel,
            >(m@),
            Err(e) => row_values(columns_view(cols@), row_cells(*row), cols@.len() as nat) == Err::<
                Map<Seq<char>, ValueModel>,
                DecodeErrorModel,
            >(e@),
        },
{
    let ghost cv = columns_view(cols@);
    let ghost rv = row_cells(*row);
    let n = cols.len();
    let mut m = GenericMap::new();
    let mut k: usize = 0;
    while k < n
        invariant
            n == cols@.len(),
            row@.len() == n + 1,
            cv == columns_view(cols@),
            rv == row_cells(*row),
            k <= n,
            row_values(cv, rv, k as nat) == Ok::<Map<Seq<char>, ValueModel>, DecodeErrorModel>(
                m@,
            ),
        decreases n - k,
    {
        let c = &cols[k];
        let cell = row[k + 1].as_str();
        let effective = if cell.unicode_len() == 0 {
            c.default_value.as_str()
        } else {
            cell
        };
        assert(rv[k + 1] == row@[k + 1 as int]@);
        assert(cv[k as int] == c@);
        match parse_value(effective, c.data_type, c.name.as_str()) {
            Ok(v) => {
                m.insert(c.name.clone(), v);
                k = k + 1;
            },
            Err(e) => {
                proof { lemma_values_error_stays(cv, rv, (k + 1) as nat, n as nat); }
                return Err(e);
            },
        }
    }
    Ok(m)
}

/// The message of an error table's row.
fn error_text(row: &Vec<String>) -> (r: String)
    ensures
        r@ == error_message(row_cells(*row)),
{
    let mut msg = if row.len() > 1 && row[1].as_str().unicode_len() > 0 {
        row[1].clone()
    } else {
        String::from_str("unknown query error")
    };
    if row.len() > 2 && row[2].as_str().unicode_len() > 0 {
        msg.append(",");
        msg.append(row[2].as_str());
    }
    msg
}

/// Reads the records of an annotated-CSV text, one per call of `next`.
pub struct QueryTableResult {
    rows: Vec<Vec<String>>,
    readable: bool,
    next_row: usize,
    table_position: usize,
    table: Option<FluxTableMetadata>,
    finished: bool,
}

impl QueryTableResult {
    /// The rows of the text.
    pub closed spec fn rows(&self) -> Seq<Seq<Seq<char>>> {
        rows_view(self.rows@)
    }

    /// Whether the text could be split into rows.
    pub closed spec fn readable(&self) -> bool {
        self.readable
    }

    /// Index of the next row to read.
    pub closed spec fn cursor(&self) -> int {
        self.next_row as int
    }

    /// Position that the next table opened will get.
    pub closed spec fn position(&self) -> nat {
        self.table_position as nat
    }

    /// The table that data rows belong to now.
    pub closed spec fn table(&self) -> Option<TableModel> {
        table_view(self.table)
    }

    /// Whether an error has ended reading.
    pub closed spec fn finished(&self) -> bool {
        self.finished
    }

    pub closed spec fn wf(&self) -> bool {
        &&& self.next_row <= self.rows@.len()
        &&& self.table_position <= self.next_row
        &&& !self.readable ==> self.rows@.len() == 0
    }

    /// A reader at the start of `text`.
    pub fn new(text: &str) -> (r: QueryTableResult)
        ensures
            r.wf(),
            r.readable() == csv_records(text@).is_some(),
            r.readable() ==> r.rows() == csv_records(text@).unwrap(),
            r.cursor() == 0,
            r.position() == 0,
            r.table().is_none(),
            !r.finished(),
    {
        match read_csv_rows(text) {
            Some(rows) => QueryTableResult {
                rows,
                readable: true,
                next_row: 0,
                table_position: 0,
                table: None,
                finished: false,
            },
            None => QueryTableResult {
                rows: Vec::new(),
                readable: false,
                next_row: 0,
                table_position: 0,
                table: None,
                finished: false,
            },
        }
    }

    /// The next record; `Ok(None)` once the text has ended.
    ///
    /// Each call starts in `Normal` state with no `#datatype` row seen and
    /// reads rows as `scan` describes. After an error the reader yields
    /// nothing more.
    pub fn next(&mut self) -> (r: Result<Option<FluxRecord>, DecodeError>)
        requires
            old(self).wf(),
        ensures
            final(self).wf(),
            final(self).rows() == old(self).rows(),
            final(self).readable() == old(self).readable(),
            old(self).finished() ==> (r matches Ok(None) && final(self).finished()),
            !old(self).finished() && !old(self).readable() ==> (r matches Err(e) && e@
                == DecodeErrorModel::UnreadableText && final(self).finished()),
            !old(self).finished() && old(self).readable() ==> ({
                let (st, j, out) = scan(
                    old(self).rows(),
                    old(self).cursor(),
                    call_start(old(self).position(), old(self).table()),
                );
                match out {
                    Outcome::End => r matches Ok(None) && !final(self).finished()
                        && final(self).cursor() == j && final(self).position() == st.position
                        && final(self).table() == st.table,
                    Outcome::Record(rec) => r matches Ok(Some(x)) && x@ == rec
                        && !final(self).finished() && final(self).cursor() == j
                        && final(self).position() == st.position && final(self).table()
                        == st.table,
                    Outcome::Fail(e) => r matches Err(x) && x@ == e && final(self).finished(),
                }
            }),
    {
        if self.finished {
            return Ok(None);
        }
        if !self.readable {
            self.finished = true;
            return Err(DecodeError::UnreadableText);
        }
        let ghost rows = rows_view(self.rows@);
        let ghost goal = scan(
            rows,
            self.next_row as int,
            call_start(self.table_position as nat, table_view(self.table)),
        );
        let mut table = self.table.take();
        let mut position = self.table_position;
        let mut state = ParsingState::Normal;
        let mut datatype_found = false;
        let n = self.rows.len();
        loop
            invariant
                n == self.rows@.len(),
                rows == rows_view(self.rows@),
                self.next_row <= n,
                position <= self.next_row,
                self.readable,
                !self.finished,
                !old(self).finished,
                old(self).readable,
                self.readable == old(self).readable,
                self.rows == old(self).rows,
                self.table_position == old(self).table_position,
                old(self).next_row <= self.next_row,
                old(self).table_position <= old(self).next_row,
                goal == scan(
                    old(self).rows(),
                    old(self).cursor(),
                    call_start(old(self).position(), old(self).table()),
                ),
                scan(
                    rows,
                    self.next_row as int,
                    ScanState {
                        position: position as nat,
                        table: table_view(table),
                        state,
                        datatype_found,
                    },
                ) == goal,
            decreases n - self.next_row,
        {
            let i = self.next_row;
            let ghost st = ScanState {
                position: position as nat,
                table: table_view(table),
                state,
                datatype_found,
            };
            if i >= n {
                self.table = table;
                self.table_position = position;
                if state == ParsingState::Normal {
                    return Ok(None);
                } else {
                    self.finished = true;
                    return Err(DecodeError::MalformedAnnotation);
                }
            }
            let row = &self.rows[i];
            let ghost rv = row_cells(*row);
            assert(rows[i as int] == rv);
            let w = row.len();
            if w <= 1 {
                self.next_row = i + 1;
                continue;
            }
            let first = row[0].as_str();
            assert(rv[0] == first@);
            assert(rv[1] == row@[1]@);
            if first.unicode_len() > 0 && first.get_char(0) == '#' && state
                == ParsingState::Normal {
                table = Some(FluxTableMetadata { position, columns: blank_columns(w - 1) });
                position = position + 1;
                state = ParsingState::Annotation;
                datatype_found = false;
            }
            let ncols: usize;
            let tpos: usize;
            match &table {
                None => {
                    self.finished = true;
                    self.next_row = i + 1;
                    return Err(DecodeError::AnnotationsNotFound);
                },
                Some(t) => {
                    ncols = t.columns.len();
                    tpos = t.position;
                },
            }
            if w - 1 != ncols {
                self.finished = true;
                self.next_row = i + 1;
                return Err(DecodeError::ColumnCountMismatch { row: w - 1, table: ncols });
            }
            let cols = &table.as_ref().unwrap().columns;
            if first.unicode_len() == 0 {
                match state {
                    ParsingState::Annotation => {
                        if !datatype_found {
                            self.finished = true;
                            self.next_row = i + 1;
                            return Err(DecodeError::MalformedAnnotation);
                        }
                        if text_is(row[1].as_str(), "error") {
                            state = ParsingState::Error;
                        } else {
                            let c = named(cols, row);
                            table = Some(FluxTableMetadata { position: tpos, columns: c });
                            state = ParsingState::Normal;
                        }
                        self.next_row = i + 1;
                    },
                    ParsingState::Error => {
                        let message = error_text(row);
                        self.finished = true;
                        self.next_row = i + 1;
                        return Err(DecodeError::QueryErrorRow { message });
                    },
                    ParsingState::Normal => {
                        match values_of_row(cols, row) {
                            Ok(values) => {
                                self.next_row = i + 1;
                                self.table = table;
                                self.table_position = position;
                                return Ok(Some(FluxRecord { table: tpos, values }));
                            },
                            Err(e) => {
                                self.finished = true;
                                self.next_row = i + 1;
                                return Err(e);
                            },
                        }
                    },
                }
            } else if text_is(first, "#datatype") {
                match typed(cols, row) {
                    Ok(c) => {
                        table = Some(FluxTableMetadata { position: tpos, columns: c });
                        datatype_found = true;
                        self.next_row = i + 1;
                    },
                    Err(e) => {
                        self.finished = true;
                        self.next_row = i + 1;
                        return Err(e);
                    },
                }
            } else if text_is(first, "#group") {
                let c = grouped(cols, row);
                table = Some(FluxTableMetadata { position: tpos, columns: c });
                self.next_row = i + 1;
            } else if text_is(first, "#default") {
                let c = defaulted(cols, row);
                table = Some(FluxTableMetadata { position: tpos, columns: c });
                self.next_row = i + 1;
            } else {
                self.finished = true;
                self.next_row = i + 1;
                return Err(DecodeError::InvalidFirstCell { cell: row[0].clone() });
            }
        }
    }
}

proof fn lemma_scan_advances(rows: Seq<Seq<Seq<char>>>, i: int, st: ScanState)
    requires
        0 <= i,
    ensures
        ({
            let (st2, j, out) = scan(rows, i, st);
            out is Record ==> i < j <= rows.len()
        }),
    decreases rows.len() - i,
{
    if i < rows.len() {
        match row_step(st, rows[i]) {
            Step::Continue(st2) => lemma_scan_advances(rows, i + 1, st2),
            _ => {},
        }
    }
}

/// The records that the reader yields from row `i` on, in order, or the
/// first error.
pub open spec fn records_from(
    rows: Seq<Seq<Seq<char>>>,
    i: int,
    position: nat,
    table: Option<TableModel>,
) -> Result<Seq<RecordModel>, DecodeErrorModel>
    decreases rows.len() - i,
{
    let (st, j, out) = scan(rows, i, call_start(position, table));
    match out {
        Outcome::End => Ok(Seq::empty()),
        Outcome::Fail(e) => Err(e),
        Outcome::Record(rec) => if i < j <= rows.len() {
            match records_from(rows, j, st.position, st.table) {
                Ok(rest) => Ok(seq![rec] + rest),
                Err(e) => Err(e),
            }
        } else {
            Ok(seq![rec])
        },
    }
}

/// The records of a whole annotated-CSV text, or the first error.
pub open spec fn records_of(text: Seq<char>) -> Result<Seq<RecordModel>, DecodeErrorModel> {
    match csv_records(text) {
        None => Err(DecodeErrorModel::UnreadableText),
        Some(rows) => records_from(rows, 0, 0, None),
    }
}

pub open spec fn records_view(v: Seq<FluxRecord>) -> Seq<RecordModel> {
    v.map_values(|r: FluxRecord| r@)
}

/// Reads every record of an annotated-CSV text.
pub fn collect_records(text: &str) -> (r: Result<Vec<FluxRecord>, DecodeError>)
    ensures
        match r {
            Ok(v) => records_of(text@) == Ok::<Seq<RecordModel>, DecodeErrorModel>(
                records_view(v@),
            ),
            Err(e) => records_of(text@) == Err::<Seq<RecordModel>, DecodeErrorModel>(e@),
        },
{
    let mut reader = QueryTableResult::new(text);
    if !reader.readable {
        return Err(DecodeError::UnreadableText);
    }
    let mut out: Vec<FluxRecord> = Vec::new();
    loop
        invariant
            reader.wf(),
            reader.readable(),
            !reader.finished(),
            csv_records(text@) == Some(reader.rows()),
            records_of(text@) == match records_from(
                reader.rows(),
                reader.cursor(),
                reader.position(),
                reader.table(),
            ) {
                Ok(rest) => Ok::<Seq<RecordModel>, DecodeErrorModel>(records_view(out@) + rest),
                Err(e) => Err(e),
            },
        decreases reader.rows().len() - reader.cursor(),
    {
        let ghost before = reader;
        proof {
            lemma_scan_advances(
                reader.rows(),
                reader.cursor(),
                call_start(reader.position(), reader.table()),
            );
        }
        match reader.next() {
            Ok(Some(rec)) => {
                let ghost prev = out@;
                out.push(rec);
                proof {
                    assert(records_view(out@) =~= records_view(prev).push(rec@));
                    let ghost rest = records_from(
                        reader.rows(),
                        reader.cursor(),
                        reader.position(),
                        reader.table(),
                    );
                    assert(records_from(
                        before.rows(),
                        before.cursor(),
                        before.position(),
                        before.table(),
                    ) == match rest {
                        Ok(t) => Ok::<Seq<RecordModel>, DecodeErrorModel>(seq![rec@] + t),
                        Err(e) => Err(e),
                    });
                    if rest is Ok {
                        assert(records_view(prev) + (seq![rec@] + rest->Ok_0) =~= records_view(
                            out@,
                        ) + rest->Ok_0);
                    }
                }
            },
            Ok(None) => {
                assert(records_view(out@) + Seq::<RecordModel>::empty() =~= records_view(out@));
                return Ok(out);
            },
            Err(e) => {
                return Err(e);
            },
        }
    }
}

/// A query response held for reading, as often as needed.
#[derive(Clone, Debug)]
pub struct QueryTableIter {
    text: String,
}

impl QueryTableIter {
    /// The response text.
    pub closed spec fn text(&self) -> Seq<char> {
        self.text@
    }

    /// Holds a response text.
    pub fn new(text: String) -> (r: QueryTableIter)
        ensures
            r.text() == text@,
    {
        QueryTableIter { text }
    }

    /// A fresh reader over the response.
    pub fn result(&self) -> (r: QueryTableResult)
        ensures
            r.wf(),
            r.readable() == csv_records(self.text()).is_some(),
            r.readable() ==> r.rows() == csv_records(self.text()).unwrap(),
            r.cursor() == 0,
            r.position() == 0,
            r.table().is_none(),
            !r.finished(),
    {
        QueryTableResult::new(self.text.as_str())
    }

    /// Whether the response holds no record: reading it ends at once.
    pub fn is_empty(&self) -> (r: bool)
        ensures
            r == (match csv_records(self.text()) {
                Some(rows) => scan(rows, 0, call_start(0, None)).2 is End,
                None => false,
            }),
    {
        let mut reader = QueryTableResult::new(self.text.as_str());
        match reader.next() {
            Ok(None) => true,
            _ => false,
        }
    }
}

/// A data row whose width differs from its table's fails with the two
/// widths: rows are never cut or padded to fit.
pub proof fn lemma_width_mismatch_fails(st: ScanState, row: Seq<Seq<char>>)
    requires
        st.table is Some,
        st.state == ParsingState::Normal,
        row.len() > 1,
        row[0].len() == 0,
        row.len() - 1 != st.table->Some_0.columns.len(),
    ensures
        row_step(st, row) == Step::Fail(
            DecodeErrorModel::ColumnCountMismatch {
                row: (row.len() - 1) as nat,
                table: st.table->Some_0.columns.len(),
            },
        ),
{
}

proof fn lemma_typed_ok(cols: Seq<ColumnModel>, row: Seq<Seq<char>>, k: nat)
    requires
        k <= cols.len(),
        row.len() == cols.len() + 1,
        forall|j: int| 1 <= j <= k ==> crate::codec::data_type_of(#[trigger] row[j]).is_some(),
    ensures
        typed_columns(cols, row, k) is Ok,
        typed_columns(cols, row, k)->Ok_0.len() == cols.len(),
    decreases k,
{
    if k > 0 {
        lemma_typed_ok(cols, row, (k - 1) as nat);
        assert(crate::codec::data_type_of(row[k as int]).is_some());
    }
}

/// A table whose header names an `error` column fails the decode with the
/// message of its data row: cell 1, a comma, cell 2.
pub proof fn lemma_error_table_fails(
    datatypes: Seq<Seq<char>>,
    header: Seq<Seq<char>>,
    data: Seq<Seq<char>>,
)
    requires
        datatypes.len() >= 3,
        header.len() == datatypes.len(),
        data.len() == datatypes.len(),
        datatypes[0] == "#datatype"@,
        forall|j: int|
            1 <= j < datatypes.len() ==> crate::codec::data_type_of(#[trigger] datatypes[j]).is_some(),
        header[0].len() == 0,
        header[1] == "error"@,
        data[0].len() == 0,
        data[1].len() > 0,
        data[2].len() > 0,
    ensures
        records_from(seq![datatypes, header, data], 0, 0, None) == Err::<
            Seq<RecordModel>,
            DecodeErrorModel,
        >(DecodeErrorModel::QueryErrorRow { message: data[1] + ","@ + data[2] }),
{
    reveal_strlit("#datatype");
    let rows = seq![datatypes, header, data];
    let w = datatypes.len();
    let blank = blank_columns_model((w - 1) as nat);
    lemma_typed_ok(blank, datatypes, (w - 1) as nat);
    let cs = typed_columns(blank, datatypes, (w - 1) as nat)->Ok_0;
    let st0 = call_start(0, None);
    let st1 = ScanState {
        position: 1,
        table: Some(TableModel { position: 0, columns: cs }),
        state: ParsingState::Annotation,
        datatype_found: true,
    };
    assert(opens_table(datatypes[0]));
    assert(row_step(st0, datatypes) == Step::Continue(st1));
    let st2 = ScanState {
        position: 1,
        table: Some(TableModel { position: 0, columns: cs }),
        state: ParsingState::Error,
        datatype_found: true,
    };
    assert(row_step(st1, header) == Step::Continue(st2));
    assert(error_message(data) == data[1] + ","@ + data[2]);
    assert(row_step(st2, data) == Step::Fail(
        DecodeErrorModel::QueryErrorRow { message: data[1] + ","@ + data[2] },
    ));
    assert(rows[0] == datatypes && rows[1] == header && rows[2] == data);
    assert(scan(rows, 2, st2).2 == Outcome::Fail(
        DecodeErrorModel::QueryErrorRow { message: data[1] + ","@ + data[2] },
    ));
    assert(scan(rows, 1, st1) == scan(rows, 2, st2));
    assert(scan(rows, 0, st0) == scan(rows, 1, st1));
}

/// In a table of `n` columns, a call of `next` that reaches a data row
/// whose width is not `n + 1` fails with the two widths; it never yields
/// that row cut or padded.
pub proof fn lemma_mismatched_row_fails_call(
    rows: Seq<Seq<Seq<char>>>,
    i: int,
    position: nat,
    table: TableModel,
)
    requires
        0 <= i < rows.len(),
        rows[i].len() > 1,
        rows[i][0].len() == 0,
        rows[i].len() - 1 != table.columns.len(),
    ensures
        scan(rows, i, call_start(position, Some(table))).2 == Outcome::Fail(
            DecodeErrorModel::ColumnCountMismatch {
                row: (rows[i].len() - 1) as nat,
                table: table.columns.len(),
            },
        ),
{
    lemma_width_mismatch_fails(call_start(position, Some(table)), rows[i]);
}

} // verus!
