//! Sessions as the activity view reports them, and how a result set becomes
//! a list of them.

use vstd::prelude::*;
use crate::time::Timestamp;

verus! {

/// The state that the tool looks for, as the activity view spells it.
pub const STATE_LABEL: &'static str = "idle in transaction";

/// The one query of a run: the seven columns of every session in that state,
/// longest in the state first.
pub const SESSION_QUERY: &'static str =
    "SELECT datid,pid,query,backend_start,xact_start,query_start,state_change from pg_stat_activity where state = 'idle in transaction' order by state_change";

/// The number of columns in a row of the result.
pub const COLUMN_COUNT: usize = 7;

/// One value of a result row, by the type the database gave it.
#[derive(Debug, PartialEq, Eq)]
pub enum Cell {
    /// No value.
    Null,
    /// An object identifier.
    Oid(u32),
    /// A four-byte integer.
    Int4(i32),
    /// Text.
    Text(String),
    /// A timestamp with time zone.
    TimestampTz(Timestamp),
    /// A value of any other type.
    Other,
}

/// One session that is idle in a transaction.
#[derive(Debug, PartialEq, Eq)]
pub struct FindIitRow {
    /// The database the session is connected to.
    pub datid: u32,
    /// The process that serves the session.
    pub pid: i32,
    /// The last statement of the session; may be empty.
    pub query: String,
    pub backend_start: Timestamp,
    pub xact_start: Timestamp,
    pub query_start: Timestamp,
    /// When the session entered its state.
    pub state_change: Timestamp,
}

/// Why a row is no session.
#[derive(Clone, Copy, Debug, PartialEq, Eq, Structural)]
pub enum ShapeProblem {
    /// The row has `found` columns, not seven.
    WrongCount { found: usize },
    /// The value in `column`, counted from zero, is missing or of another type.
    WrongType { column: usize },
}

/// A row of the result that cannot be read, counted from zero.
#[derive(Clone, Copy, Debug, PartialEq, Eq, Structural)]
pub struct DataShapeError {
    pub row: usize,
    pub problem: ShapeProblem,
}

/// Whether the value in `column` has the type that the column calls for.
pub open spec fn column_fits(cells: Seq<Cell>, column: int) -> bool {
    if column == 0 {
        cells[0] is Oid
    } else if column == 1 {
        cells[1] is Int4
    } else if column == 2 {
        cells[2] is Text
    } else {
        cells[column] is TimestampTz
    }
}

/// The first column from `from` on whose value does not fit, if any.
pub open spec fn first_misfit(cells: Seq<Cell>, from: int) -> Option<int>
    decreases COLUMN_COUNT - from,
{
    if from >= COLUMN_COUNT {
        None
    } else if !column_fits(cells, from) {
        Some(from)
    } else {
        first_misfit(cells, from + 1)
    }
}

/// What is wrong with a row: its length, else its first value of a wrong
/// type; nothing where it has seven values of the right types.
pub open spec fn shape_problem(cells: Seq<Cell>) -> Option<ShapeProblem> {
    if cells.len() != COLUMN_COUNT {
        Some(ShapeProblem::WrongCount { found: cells.len() as usize })
    } else {
        match first_misfit(cells, 0) {
            Some(column) => Some(ShapeProblem::WrongType { column: column as usize }),
            None => None,
        }
    }
}

/// Whether `record` holds exactly the seven values of `cells`.
pub open spec fn describes(record: FindIitRow, cells: Seq<Cell>) -> bool {
    &&& cells.len() == COLUMN_COUNT
    &&& cells[0] == Cell::Oid(record.datid)
    &&& cells[1] == Cell::Int4(record.pid)
    &&& cells[2] == Cell::Text(record.query)
    &&& cells[3] == Cell::TimestampTz(record.backend_start)
    &&& cells[4] == Cell::TimestampTz(record.xact_start)
    &&& cells[5] == Cell::TimestampTz(record.query_start)
    &&& cells[6] == Cell::TimestampTz(record.state_change)
}

/// Whether the sessions stand in the order of their `state_change`, the one
/// longest in its state first.
pub open spec fn oldest_first(records: Seq<FindIitRow>) -> bool {
    forall|i: int, j: int|
        0 <= i <= j < records.len() ==> (#[trigger] records[i]).state_change.nanoseconds() <= (
        #[trigger] records[j]).state_change.nanoseconds()
}

fn timestamp_in(cells: &Vec<Cell>, column: usize) -> (r: Option<Timestamp>)
    requires
        3 <= column < cells@.len(),
    ensures
        r is Some <==> column_fits(cells@, column as int),
        r matches Some(t) ==> cells@[column as int] == Cell::TimestampTz(t),
{
    match &cells[column] {
        Cell::TimestampTz(t) => Some(*t),
        _ => None,
    }
}

/// Reads one row of the result as a session.
pub fn decode_row(cells: &Vec<Cell>) -> (r: Result<FindIitRow, ShapeProblem>)
    ensures
        r is Ok <==> shape_problem(cells@) is None,
        r matches Ok(record) ==> describes(record, cells@),
        r matches Err(problem) ==> shape_problem(cells@) == Some(problem),
{
    if cells.len() != COLUMN_COUNT {
        return Err(ShapeProblem::WrongCount { found: cells.len() });
    }
    proof {
        reveal_with_fuel(first_misfit, 8);
    }
    let datid = match &cells[0] {
        Cell::Oid(v) => *v,
        _ => {
            return Err(ShapeProblem::WrongType { column: 0 });
        },
    };
    let pid = match &cells[1] {
        Cell::Int4(v) => *v,
        _ => {
            return Err(ShapeProblem::WrongType { column: 1 });
        },
    };
    let query = match &cells[2] {
        Cell::Text(text) => text.clone(),
        _ => {
            return Err(ShapeProblem::WrongType { column: 2 });
        },
    };
    let backend_start = match timestamp_in(cells, 3) {
        Some(t) => t,
        None => {
            return Err(ShapeProblem::WrongType { column: 3 });
        },
    };
    let xact_start = match timestamp_in(cells, 4) {
        Some(t) => t,
        None => {
            return Err(ShapeProblem::WrongType { column: 4 });
        },
    };
    let query_start = match timestamp_in(cells, 5) {
        Some(t) => t,
        None => {
            return Err(ShapeProblem::WrongType { column: 5 });
        },
    };
    let state_change = match timestamp_in(cells, 6) {
        Some(t) => t,
        None => {
            return Err(ShapeProblem::WrongType { column: 6 });
        },
    };
    Ok(FindIitRow { datid, pid, query, backend_start, xact_start, query_start, state_change })
}

/// Reads the rows of the result as sessions, in the order of the rows. The
/// first row that cannot be read ends it.
pub fn find_iit(rows: &Vec<Vec<Cell>>) -> (r: Result<Vec<FindIitRow>, DataShapeError>)
    ensures
        r is Ok <==> forall|i: int| 0 <= i < rows@.len() ==> shape_problem(#[trigger] rows@[i]@) is None,
        r matches Ok(records) ==> {
            &&& records@.len() == rows@.len()
            &&& forall|i: int| 0 <= i < rows@.len() ==> describes(#[trigger] records@[i], rows@[i]@)
        },
        r matches Err(e) ==> {
            &&& e.row < rows@.len()
            &&& shape_problem(rows@[e.row as int]@) == Some(e.problem)
            &&& forall|i: int| 0 <= i < e.row ==> shape_problem(#[trigger] rows@[i]@) is None
        },
{
    let mut records: Vec<FindIitRow> = Vec::new();
    let mut i: usize = 0;
    while i < rows.len()
        invariant
            i <= rows@.len(),
            records@.len() == i,
            forall|k: int| 0 <= k < i ==> shape_problem(#[trigger] rows@[k]@) is None,
            forall|k: int| 0 <= k < i ==> describes(#[trigger] records@[k], rows@[k]@),
        decreases rows@.len() - i,
    {
        match decode_row(&rows[i]) {
            Ok(record) => {
                records.push(record);
            },
            Err(problem) => {
                return Err(DataShapeError { row: i, problem });
            },
        }
        i = i + 1;
    }
    Ok(records)
}

} // verus!
