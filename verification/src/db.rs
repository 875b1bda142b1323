//! The values that pass between the ledger and its database, and how a row of cells becomes a
//! record.

use vstd::prelude::*;
use vstd::string::*;

use crate::text;

verus! {

/// One value of a result row, or one bound parameter. What a `Real` or a `Blob` holds is of no use
/// to the ledger, so only its presence is kept.
#[derive(Debug, PartialEq)]
pub enum Cell {
    Null,
    Integer(i64),
    Real,
    Text(String),
    Blob,
}

/// The model of a `Cell`.
pub enum CellView {
    Null,
    Integer(i64),
    Real,
    Text(Seq<char>),
    Blob,
}

impl View for Cell {
    type V = CellView;

    open spec fn view(&self) -> CellView {
        match self {
            Cell::Null => CellView::Null,
            Cell::Integer(value) => CellView::Integer(*value),
            Cell::Real => CellView::Real,
            Cell::Text(value) => CellView::Text(value@),
            Cell::Blob => CellView::Blob,
        }
    }
}

/// The models of the cells of a row.
pub open spec fn cell_views(row: Seq<Cell>) -> Seq<CellView> {
    row.map_values(|cell: Cell| cell@)
}

/// The models of the cells of rows, row by row.
pub open spec fn row_views(rows: Seq<Vec<Cell>>) -> Seq<Seq<CellView>> {
    rows.map_values(|row: Vec<Cell>| cell_views(row@))
}

/// What the database gave back for a statement that it carried out.
#[derive(Debug)]
pub struct Answer {
    /// The result rows, in the order in which they came.
    pub rows: Vec<Vec<Cell>>,
    /// How many rows the statement inserted, updated or deleted.
    pub changed: usize,
}

/// The primary error code of a failed SQLite call, as far as the ledger tells codes apart.
#[derive(Debug, Clone, Copy, PartialEq, Eq, Structural)]
pub enum ErrorCode {
    ConstraintViolation,
    Other,
}

/// A failure that SQLite itself reported.
#[derive(Debug, PartialEq)]
pub struct SqliteFailure {
    pub code: ErrorCode,
    pub extended_code: i32,
    pub message: Option<String>,
}

/// Why a statement failed: the failure that SQLite reported, if it did, and the error as text.
#[derive(Debug, PartialEq)]
pub struct DbError {
    pub failure: Option<SqliteFailure>,
    pub text: String,
}

/// What became of a statement.
pub type Outcome = Result<Answer, DbError>;

/// The model of a `SqliteFailure`.
pub struct FailureView {
    pub code: ErrorCode,
    pub extended_code: i32,
    pub message: Option<Seq<char>>,
}

/// The model of a `DbError`.
pub struct DbErrorView {
    pub failure: Option<FailureView>,
    pub text: Seq<char>,
}

/// The characters of a text that may be missing.
pub open spec fn optional_text(text: Option<String>) -> Option<Seq<char>> {
    match text {
        Some(text) => Some(text@),
        None => None,
    }
}

impl View for DbError {
    type V = DbErrorView;

    open spec fn view(&self) -> DbErrorView {
        DbErrorView {
            failure: match self.failure {
                Some(failure) => Some(
                    FailureView {
                        code: failure.code,
                        extended_code: failure.extended_code,
                        message: optional_text(failure.message),
                    },
                ),
                None => None,
            },
            text: self.text@,
        }
    }
}

/// An error that did not come from SQLite.
pub open spec fn plain_error(text: Seq<char>) -> DbErrorView {
    DbErrorView { failure: None, text }
}

/// What a column may hold.
#[derive(Debug, Clone, Copy, PartialEq, Eq, Structural)]
pub enum Kind {
    Integer,
    OptionalInteger,
    Text,
    OptionalText,
}

/// A column of a result row: its name and what it may hold.
pub struct Column {
    pub name: &'static str,
    pub kind: Kind,
}

/// The model of a `Column`.
pub struct ColumnView {
    pub name: Seq<char>,
    pub kind: Kind,
}

impl View for Column {
    type V = ColumnView;

    open spec fn view(&self) -> ColumnView {
        ColumnView { name: self.name@, kind: self.kind }
    }
}

/// Whether a column of kind `kind` may hold `cell`.
pub open spec fn fits(cell: Cell, kind: Kind) -> bool {
    match cell {
        Cell::Null => kind is OptionalInteger || kind is OptionalText,
        Cell::Integer(_) => kind is Integer || kind is OptionalInteger,
        Cell::Text(_) => kind is Text || kind is OptionalText,
        Cell::Real => false,
        Cell::Blob => false,
    }
}

/// The name of the storage class of `cell`.
pub open spec fn storage_class(cell: Cell) -> Seq<char> {
    match cell {
        Cell::Null => "Null"@,
        Cell::Integer(_) => "Integer"@,
        Cell::Real => "Real"@,
        Cell::Text(_) => "Text"@,
        Cell::Blob => "Blob"@,
    }
}

/// Why column `index` of `row` cannot be read as `column`, if it cannot.
pub open spec fn column_fault(row: Seq<Cell>, index: int, column: ColumnView) -> Option<Seq<char>> {
    if index >= row.len() {
        Some("Invalid column index: "@ + text::decimal(index))
    } else if !fits(row[index], column.kind) {
        Some(
            "Invalid column type "@ + storage_class(row[index]) + " at index: "@ + text::decimal(index)
                + ", name: "@ + column.name,
        )
    } else {
        None
    }
}

/// Why `row` cannot be read as `columns`, if it cannot: the fault of its leftmost faulty column.
pub open spec fn row_fault(row: Seq<Cell>, columns: Seq<ColumnView>) -> Option<Seq<char>>
    decreases columns.len(),
{
    if columns.len() == 0 {
        None
    } else {
        match row_fault(row, columns.drop_last()) {
            Some(fault) => Some(fault),
            None => column_fault(row, columns.len() - 1, columns.last()),
        }
    }
}

/// The models of a list of columns.
pub open spec fn column_views(columns: Seq<Column>) -> Seq<ColumnView> {
    columns.map_values(|column: Column| column@)
}

/// A row without a fault has a fitting cell for every column.
pub proof fn lemma_faultless(row: Seq<Cell>, columns: Seq<ColumnView>)
    requires
        row_fault(row, columns) is None,
    ensures
        columns.len() <= row.len(),
        forall|i: int| 0 <= i < columns.len() ==> fits(#[trigger] row[i], columns[i].kind),
    decreases columns.len(),
{
    if columns.len() > 0 {
        lemma_faultless(row, columns.drop_last());
        assert forall|i: int| 0 <= i < columns.len() implies fits(#[trigger] row[i], columns[i].kind) by {
            if i < columns.len() - 1 {
                assert(columns.drop_last()[i] == columns[i]);
            }
        }
    }
}

fn cell_fits(cell: &Cell, kind: Kind) -> (fit: bool)
    ensures
        fit == fits(*cell, kind),
{
    match cell {
        Cell::Null => kind == Kind::OptionalInteger || kind == Kind::OptionalText,
        Cell::Integer(_) => kind == Kind::Integer || kind == Kind::OptionalInteger,
        Cell::Text(_) => kind == Kind::Text || kind == Kind::OptionalText,
        Cell::Real => false,
        Cell::Blob => false,
    }
}

fn cell_storage_class(cell: &Cell) -> (name: &'static str)
    ensures
        name@ == storage_class(*cell),
{
    match cell {
        Cell::Null => "Null",
        Cell::Integer(_) => "Integer",
        Cell::Real => "Real",
        Cell::Text(_) => "Text",
        Cell::Blob => "Blob",
    }
}

/// A failure that did not come from SQLite.
pub fn plain_db_error(text: String) -> (error: DbError)
    ensures
        error@ == plain_error(text@),
{
    DbError { failure: None, text }
}

/// Looks for the leftmost column of `row` that cannot be read.
fn check_row(row: &Vec<Cell>, columns: &Vec<Column>) -> (fault: Option<DbError>)
    requires
        columns@.len() <= i64::MAX,
    ensures
        match fault {
            Some(error) => row_fault(row@, column_views(columns@)) is Some && error@ == plain_error(
                row_fault(row@, column_views(columns@))->0,
            ),
            None => row_fault(row@, column_views(columns@)) is None,
        },
{
    let ghost views = column_views(columns@);
    let mut i: usize = 0;
    assert(views.take(0) =~= Seq::<ColumnView>::empty());
    while i < columns.len()
        invariant
            views == column_views(columns@),
            columns@.len() <= i64::MAX,
            i <= columns@.len(),
            row_fault(row@, views.take(i as int)) is None,
        decreases columns@.len() - i,
    {
        proof {
            assert(views.take(i + 1).drop_last() =~= views.take(i as int));
            assert(views.take(i + 1).last() == columns@[i as int]@);
        }
        if i >= row.len() || !cell_fits(&row[i], columns[i].kind) {
            let mut text: String = String::new();
            if i >= row.len() {
                text.append("Invalid column index: ");
                text::push_decimal(&mut text, i as i64);
            } else {
                text.append("Invalid column type ");
                text.append(cell_storage_class(&row[i]));
                text.append(" at index: ");
                text::push_decimal(&mut text, i as i64);
                text.append(", name: ");
                text.append(columns[i].name);
            }
            proof {
                assert(Some(text@) =~= column_fault(row@, i as int, views[i as int]));
                lemma_fault_stays(row@, views, i + 1);
            }
            return Some(plain_db_error(text));
        }
        i = i + 1;
    }
    assert(views.take(views.len() as int) =~= views);
    None
}

/// A fault among the first columns is the fault of the row.
proof fn lemma_fault_stays(row: Seq<Cell>, columns: Seq<ColumnView>, count: int)
    requires
        0 <= count <= columns.len(),
        row_fault(row, columns.take(count)) is Some,
    ensures
        row_fault(row, columns) == row_fault(row, columns.take(count)),
    decreases columns.len(),
{
    if count == columns.len() {
        assert(columns.take(count) =~= columns);
    } else {
        assert(columns.drop_last().take(count) =~= columns.take(count));
        lemma_fault_stays(row, columns.drop_last(), count);
    }
}

/// A record that is read out of a result row.
pub trait Record: Sized {
    /// The columns of the row, from left to right.
    spec fn columns() -> Seq<ColumnView>;

    /// The record that a row holds, provided that it has no fault.
    spec fn of(row: Seq<Cell>) -> Self;

    fn layout() -> (columns: Vec<Column>)
        ensures
            column_views(columns@) == Self::columns(),
            columns@.len() <= i64::MAX,
    ;

    fn from_cells(row: &Vec<Cell>) -> (record: Self)
        requires
            row_fault(row@, Self::columns()) is None,
        ensures
            record == Self::of(row@),
    ;
}

/// The record that a row holds, or why it cannot be read as one.
pub open spec fn record_of<R: Record>(row: Seq<Cell>) -> Result<R, DbErrorView> {
    match row_fault(row, R::columns()) {
        Some(fault) => Err(plain_error(fault)),
        None => Ok(R::of(row)),
    }
}

/// Reads a row, or says which column cannot be read.
pub fn read_row<R: Record>(row: &Vec<Cell>) -> (record: Result<R, DbError>)
    ensures
        match record {
            Ok(record) => record_of::<R>(row@) == Ok::<R, DbErrorView>(record),
            Err(error) => record_of::<R>(row@) == Err::<R, DbErrorView>(error@),
        },
{
    let columns: Vec<Column> = R::layout();
    match check_row(row, &columns) {
        Some(error) => Err(error),
        None => Ok(R::from_cells(row)),
    }
}

/// The integer in a cell that holds one.
pub open spec fn integer_of(cell: Cell) -> i64 {
    cell->Integer_0
}

/// The text in a cell that holds one.
pub open spec fn text_of(cell: Cell) -> String {
    cell->Text_0
}

/// The integer in a cell that may hold one.
pub open spec fn optional_integer_of(cell: Cell) -> Option<i64> {
    match cell {
        Cell::Integer(value) => Some(value),
        _ => None,
    }
}

/// The text in a cell that may hold one.
pub open spec fn optional_text_of(cell: Cell) -> Option<String> {
    match cell {
        Cell::Text(value) => Some(value),
        _ => None,
    }
}

/// Reads an integer.
pub fn integer_at(row: &Vec<Cell>, index: usize) -> (value: i64)
    requires
        index < row@.len(),
        fits(row@[index as int], Kind::Integer),
    ensures
        value == integer_of(row@[index as int]),
{
    match &row[index] {
        Cell::Integer(value) => *value,
        _ => 0,
    }
}

/// Reads a text.
pub fn text_at(row: &Vec<Cell>, index: usize) -> (value: String)
    requires
        index < row@.len(),
        fits(row@[index as int], Kind::Text),
    ensures
        value == text_of(row@[index as int]),
{
    match &row[index] {
        Cell::Text(value) => value.clone(),
        _ => String::new(),
    }
}

/// Reads an integer that may be missing.
pub fn optional_integer_at(row: &Vec<Cell>, index: usize) -> (value: Option<i64>)
    requires
        index < row@.len(),
    ensures
        value == optional_integer_of(row@[index as int]),
{
    match &row[index] {
        Cell::Integer(value) => Some(*value),
        _ => None,
    }
}

/// Reads a text that may be missing.
pub fn optional_text_at(row: &Vec<Cell>, index: usize) -> (value: Option<String>)
    requires
        index < row@.len(),
    ensures
        value == optional_text_of(row@[index as int]),
{
    match &row[index] {
        Cell::Text(value) => Some(value.clone()),
        _ => None,
    }
}

/// The cell that holds an integer that may be missing.
pub open spec fn optional_integer_cell(value: Option<i64>) -> Cell {
    match value {
        Some(value) => Cell::Integer(value),
        None => Cell::Null,
    }
}

/// The cell that holds a text that may be missing.
pub open spec fn optional_text_cell(value: Option<String>) -> Cell {
    match value {
        Some(value) => Cell::Text(value),
        None => Cell::Null,
    }
}

/// The row that answers a query for one row: the first one.
pub open spec fn only_row(outcome: Outcome) -> Result<Seq<Cell>, DbErrorView> {
    match outcome {
        Ok(answer) => if answer.rows@.len() > 0 {
            Ok(answer.rows@[0]@)
        } else {
            Err(plain_error("Query returned no rows"@))
        },
        Err(error) => Err(error@),
    }
}

/// The record that answers a query for one record.
pub open spec fn only_record<R: Record>(outcome: Outcome) -> Result<R, DbErrorView> {
    match only_row(outcome) {
        Ok(row) => record_of::<R>(row),
        Err(error) => Err(error),
    }
}

/// Reads the answer to a query for one record.
pub fn fetch_one<R: Record>(outcome: Outcome) -> (record: Result<R, DbError>)
    ensures
        match record {
            Ok(record) => only_record::<R>(outcome) == Ok::<R, DbErrorView>(record),
            Err(error) => only_record::<R>(outcome) == Err::<R, DbErrorView>(error@),
        },
{
    match outcome {
        Ok(answer) => if answer.rows.len() > 0 {
            read_row::<R>(&answer.rows[0])
        } else {
            Err(plain_db_error("Query returned no rows".to_owned()))
        },
        Err(error) => Err(error),
    }
}

/// Why some row cannot be read as a record, if one cannot: the fault of the first such row.
pub open spec fn rows_fault<R: Record>(rows: Seq<Vec<Cell>>) -> Option<Seq<char>>
    decreases rows.len(),
{
    if rows.len() == 0 {
        None
    } else {
        match rows_fault::<R>(rows.drop_last()) {
            Some(fault) => Some(fault),
            None => row_fault(rows.last()@, R::columns()),
        }
    }
}

/// The records that rows hold, row by row, or why the first unreadable one cannot be read.
pub open spec fn records_of<R: Record>(rows: Seq<Vec<Cell>>) -> Result<Seq<R>, DbErrorView> {
    match rows_fault::<R>(rows) {
        Some(fault) => Err(plain_error(fault)),
        None => Ok(rows.map_values(|row: Vec<Cell>| R::of(row@))),
    }
}

proof fn lemma_rows_fault_stays<R: Record>(rows: Seq<Vec<Cell>>, count: int)
    requires
        0 <= count <= rows.len(),
        rows_fault::<R>(rows.take(count)) is Some,
    ensures
        rows_fault::<R>(rows) == rows_fault::<R>(rows.take(count)),
    decreases rows.len(),
{
    if count == rows.len() {
        assert(rows.take(count) =~= rows);
    } else {
        assert(rows.drop_last().take(count) =~= rows.take(count));
        lemma_rows_fault_stays::<R>(rows.drop_last(), count);
    }
}

/// Reads every row, or says why the first unreadable one cannot be read.
pub fn read_rows<R: Record>(rows: &Vec<Vec<Cell>>) -> (records: Result<Vec<R>, DbError>)
    ensures
        match records {
            Ok(records) => records_of::<R>(rows@) == Ok::<Seq<R>, DbErrorView>(records@),
            Err(error) => records_of::<R>(rows@) == Err::<Seq<R>, DbErrorView>(error@),
        },
{
    let mut records: Vec<R> = Vec::new();
    let mut i: usize = 0;
    while i < rows.len()
        invariant
            i <= rows@.len(),
            rows_fault::<R>(rows@.take(i as int)) is None,
            records@.len() == i,
            forall|k: int| 0 <= k < i ==> records@[k] == R::of((#[trigger] rows@[k])@),
        decreases rows@.len() - i,
    {
        proof {
            assert(rows@.take(i + 1).drop_last() =~= rows@.take(i as int));
            assert(rows@.take(i + 1).last() == rows@[i as int]);
        }
        match read_row::<R>(&rows[i]) {
            Ok(record) => {
                records.push(record);
            },
            Err(error) => {
                proof {
                    lemma_rows_fault_stays::<R>(rows@, i + 1);
                }
                return Err(error);
            },
        }
        i = i + 1;
    }
    assert(rows@.take(rows@.len() as int) =~= rows@);
    assert(records@ =~= rows@.map_values(|row: Vec<Cell>| R::of(row@)));
    Ok(records)
}

/// A cell can be read as a column exactly where it is an integer and the column one of integers, or a
/// text and the column one of texts, or NULL and the column one that may be empty.
pub proof fn law_what_can_be_read(row: Seq<Cell>, index: int, column: ColumnView)
    ensures
        column_fault(row, index, column) is None <==> index < row.len() && (match row[index] {
            Cell::Null => column.kind is OptionalInteger || column.kind is OptionalText,
            Cell::Integer(_) => column.kind is Integer || column.kind is OptionalInteger,
            Cell::Text(_) => column.kind is Text || column.kind is OptionalText,
            Cell::Real => false,
            Cell::Blob => false,
        }),
        index >= row.len() ==> column_fault(row, index, column) == Some(
            "Invalid column index: "@ + text::decimal(index),
        ),
        index < row.len() && column_fault(row, index, column) is Some ==> column_fault(
            row,
            index,
            column,
        ) == Some(
            "Invalid column type "@ + (match row[index] {
                Cell::Null => "Null"@,
                Cell::Integer(_) => "Integer"@,
                Cell::Real => "Real"@,
                Cell::Text(_) => "Text"@,
                Cell::Blob => "Blob"@,
            }) + " at index: "@ + text::decimal(index) + ", name: "@ + column.name,
        ),
{
}

/// A row can be read exactly where each of its columns can, and otherwise it is the leftmost one that
/// is complained of.
pub proof fn law_leftmost_fault(row: Seq<Cell>, columns: Seq<ColumnView>, i: int)
    requires
        0 <= i < columns.len(),
        forall|j: int| 0 <= j < i ==> column_fault(row, j, #[trigger] columns[j]) is None,
    ensures
        column_fault(row, i, columns[i]) is Some ==> row_fault(row, columns) == column_fault(
            row,
            i,
            columns[i],
        ),
        column_fault(row, i, columns[i]) is None && i == columns.len() - 1 ==> row_fault(
            row,
            columns,
        ) is None,
    decreases columns.len(),
{
    let fewer = columns.drop_last();
    if i < columns.len() - 1 {
        assert forall|j: int| 0 <= j < i implies column_fault(row, j, #[trigger] fewer[j]) is None by {
            assert(columns[j] == fewer[j]);
        }
        law_leftmost_fault(row, fewer, i);
    } else if i > 0 {
        assert forall|j: int| 0 <= j < i - 1 implies column_fault(
            row,
            j,
            #[trigger] fewer[j],
        ) is None by {
            assert(columns[j] == fewer[j]);
        }
        assert(column_fault(row, i - 1, columns[i - 1]) is None);
        law_leftmost_fault(row, fewer, i - 1);
    }
}

/// A query for one row takes the first; without one it fails in the words of an empty answer, and a
/// failure stays what it is.
pub proof fn law_first_row_counts(outcome: Outcome)
    ensures
        outcome is Ok && outcome->Ok_0.rows@.len() > 0 ==> only_row(outcome) == Ok::<
            Seq<Cell>,
            DbErrorView,
        >(outcome->Ok_0.rows@[0]@),
        outcome is Ok && outcome->Ok_0.rows@.len() == 0 ==> only_row(outcome) == Err::<
            Seq<Cell>,
            DbErrorView,
        >(DbErrorView { failure: None, text: "Query returned no rows"@ }),
        outcome is Err ==> only_row(outcome) == Err::<Seq<Cell>, DbErrorView>(outcome->Err_0@),
{
}

/// What one record is read from is what many are: a row without a fault gives its record, and one with
/// a fault that fault and nothing of SQLite.
pub proof fn law_record_of_row<R: Record>(row: Seq<Cell>)
    ensures
        row_fault(row, R::columns()) is None ==> record_of::<R>(row) == Ok::<R, DbErrorView>(
            R::of(row),
        ),
        row_fault(row, R::columns()) is Some ==> record_of::<R>(row) == Err::<R, DbErrorView>(
            DbErrorView { failure: None, text: row_fault(row, R::columns())->0 },
        ),
{
}

/// A list has a record for each row, in the order of the rows, and there is one exactly where each row
/// can be read; otherwise it is the first unreadable row that is complained of.
pub proof fn law_list_has_every_row<R: Record>(rows: Seq<Vec<Cell>>)
    ensures
        match records_of::<R>(rows) {
            Ok(records) => {
                &&& records.len() == rows.len()
                &&& forall|i: int|
                    0 <= i < rows.len() ==> record_of::<R>((#[trigger] rows[i])@) == Ok::<
                        R,
                        DbErrorView,
                    >(records[i])
            },
            Err(error) => exists|i: int|
                0 <= i < rows.len() && record_of::<R>((#[trigger] rows[i])@) == Err::<R, DbErrorView>(
                    error,
                ) && forall|j: int|
                    0 <= j < i ==> record_of::<R>((#[trigger] rows[j])@) is Ok,
        },
    decreases rows.len(),
{
    if rows.len() > 0 {
        let fewer = rows.drop_last();
        law_list_has_every_row::<R>(fewer);
        assert forall|i: int| 0 <= i < fewer.len() implies #[trigger] fewer[i] == rows[i] by {}
        match records_of::<R>(fewer) {
            Ok(records) => {
                let last = rows.len() - 1;
                assert forall|i: int| 0 <= i < last implies record_of::<R>(
                    (#[trigger] rows[i])@,
                ) is Ok by {
                    assert(fewer[i] == rows[i]);
                }
                if row_fault(rows.last()@, R::columns()) is Some {
                    assert(record_of::<R>(rows[last]@) is Err);
                } else {
                    assert forall|i: int| 0 <= i < rows.len() implies record_of::<R>(
                        (#[trigger] rows[i])@,
                    ) == Ok::<R, DbErrorView>(records_of::<R>(rows)->Ok_0[i]) by {
                        if i < last {
                            assert(fewer[i] == rows[i]);
                        }
                    }
                }
            },
            Err(error) => {
                let i = choose|i: int|
                    0 <= i < fewer.len() && record_of::<R>((#[trigger] fewer[i])@) == Err::<
                        R,
                        DbErrorView,
                    >(error) && forall|j: int|
                        0 <= j < i ==> record_of::<R>((#[trigger] fewer[j])@) is Ok;
                assert(rows[i] == fewer[i]);
                assert forall|j: int| 0 <= j < i implies record_of::<R>(
                    (#[trigger] rows[j])@,
                ) is Ok by {
                    assert(fewer[j] == rows[j]);
                }
            },
        }
    }
}

/// A text that may be missing is seen as its characters, where it is there.
pub proof fn law_optional_text_is_its_characters(text: String)
    ensures
        optional_text(Some(text)) == Some(text@),
        optional_text(None) is None,
{
}

/// An error is seen as it is: its text, and the codes and the message of SQLite, if it has them.
pub proof fn law_error_is_seen_as_it_is(error: DbError)
    ensures
        error@.text == error.text@,
        error@.failure is Some <==> error.failure is Some,
        error.failure is Some ==> error@.failure->0.code == error.failure->0.code
            && error@.failure->0.extended_code == error.failure->0.extended_code && (
        match error.failure->0.message {
            Some(message) => error@.failure->0.message == Some(message@),
            None => error@.failure->0.message is None,
        }),
{
}

/// Cells and columns are seen as they are, each in its place.
pub proof fn law_rows_are_seen_as_they_are(rows: Seq<Vec<Cell>>, columns: Seq<Column>, i: int, j: int)
    requires
        0 <= i < rows.len(),
        0 <= j < rows[i]@.len(),
    ensures
        row_views(rows).len() == rows.len(),
        row_views(rows)[i].len() == rows[i]@.len(),
        row_views(rows)[i][j] == match rows[i]@[j] {
            Cell::Null => CellView::Null,
            Cell::Integer(value) => CellView::Integer(value),
            Cell::Real => CellView::Real,
            Cell::Text(value) => CellView::Text(value@),
            Cell::Blob => CellView::Blob,
        },
        column_views(columns).len() == columns.len(),
        forall|k: int|
            0 <= k < columns.len() ==> (#[trigger] column_views(columns)[k]).name
                == columns[k].name@ && column_views(columns)[k].kind == columns[k].kind,
{
}

} // verus!
