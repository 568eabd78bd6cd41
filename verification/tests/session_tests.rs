use cleaniit::session::{
    decode_row, find_iit, Cell, DataShapeError, FindIitRow, ShapeProblem, COLUMN_COUNT,
    SESSION_QUERY, STATE_LABEL,
};
use cleaniit::time::Timestamp;

fn instant(secs: i64) -> Timestamp {
    Timestamp::new(secs, 0).expect("an instant in range")
}

fn good_row(pid: i32, state_change: i64) -> Vec<Cell> {
    vec![
        Cell::Oid(16_384),
        Cell::Int4(pid),
        Cell::Text(String::from("select 1")),
        Cell::TimestampTz(instant(1_000)),
        Cell::TimestampTz(instant(2_000)),
        Cell::TimestampTz(instant(3_000)),
        Cell::TimestampTz(instant(state_change)),
    ]
}

fn good_record(pid: i32, state_change: i64) -> FindIitRow {
    FindIitRow {
        datid: 16_384,
        pid,
        query: String::from("select 1"),
        backend_start: instant(1_000),
        xact_start: instant(2_000),
        query_start: instant(3_000),
        state_change: instant(state_change),
    }
}

fn row_with(column: usize, cell: Cell) -> Vec<Cell> {
    let mut row = good_row(1, 4_000);
    row[column] = cell;
    row
}

#[test]
fn query_names_the_view_the_state_and_the_order() {
    assert_eq!(STATE_LABEL, "idle in transaction");
    assert!(SESSION_QUERY.starts_with(
        "SELECT datid,pid,query,backend_start,xact_start,query_start,state_change "
    ));
    assert!(SESSION_QUERY.contains("from pg_stat_activity"));
    assert!(SESSION_QUERY.contains(&format!("where state = '{}'", STATE_LABEL)));
    assert!(SESSION_QUERY.ends_with("order by state_change"));
    assert_eq!(COLUMN_COUNT, 7);
}

#[test]
fn a_row_of_seven_fitting_values_is_a_session() {
    assert_eq!(decode_row(&good_row(4_242, 4_000)), Ok(good_record(4_242, 4_000)));
}

#[test]
fn every_value_lands_in_its_field() {
    let row = vec![
        Cell::Oid(1),
        Cell::Int4(-2),
        Cell::Text(String::from("update t set x = 1")),
        Cell::TimestampTz(Timestamp::new(3, 30).unwrap()),
        Cell::TimestampTz(Timestamp::new(4, 40).unwrap()),
        Cell::TimestampTz(Timestamp::new(5, 50).unwrap()),
        Cell::TimestampTz(Timestamp::new(6, 60).unwrap()),
    ];
    let record = decode_row(&row).unwrap();
    assert_eq!(record.datid, 1);
    assert_eq!(record.pid, -2);
    assert_eq!(record.query, "update t set x = 1");
    assert_eq!(record.backend_start, Timestamp::new(3, 30).unwrap());
    assert_eq!(record.xact_start, Timestamp::new(4, 40).unwrap());
    assert_eq!(record.query_start, Timestamp::new(5, 50).unwrap());
    assert_eq!(record.state_change, Timestamp::new(6, 60).unwrap());
}

#[test]
fn an_empty_statement_is_accepted() {
    let record = decode_row(&row_with(2, Cell::Text(String::new()))).unwrap();
    assert_eq!(record.query, "");
}

#[test]
fn a_short_row_has_the_wrong_count() {
    let mut row = good_row(1, 4_000);
    row.pop();
    assert_eq!(decode_row(&row), Err(ShapeProblem::WrongCount { found: 6 }));
    assert_eq!(decode_row(&Vec::new()), Err(ShapeProblem::WrongCount { found: 0 }));
}

#[test]
fn a_long_row_has_the_wrong_count() {
    let mut row = good_row(1, 4_000);
    row.push(Cell::Int4(0));
    assert_eq!(decode_row(&row), Err(ShapeProblem::WrongCount { found: 8 }));
}

#[test]
fn a_null_where_a_timestamp_belongs_is_refused() {
    assert_eq!(decode_row(&row_with(6, Cell::Null)), Err(ShapeProblem::WrongType { column: 6 }));
    assert_eq!(decode_row(&row_with(3, Cell::Null)), Err(ShapeProblem::WrongType { column: 3 }));
}

#[test]
fn a_value_of_another_type_is_refused_in_every_column() {
    for column in 0..7 {
        assert_eq!(
            decode_row(&row_with(column, Cell::Other)),
            Err(ShapeProblem::WrongType { column })
        );
        assert_eq!(
            decode_row(&row_with(column, Cell::Null)),
            Err(ShapeProblem::WrongType { column })
        );
    }
}

#[test]
fn columns_do_not_stand_in_for_each_other() {
    assert_eq!(decode_row(&row_with(0, Cell::Int4(5))), Err(ShapeProblem::WrongType { column: 0 }));
    assert_eq!(decode_row(&row_with(1, Cell::Oid(5))), Err(ShapeProblem::WrongType { column: 1 }));
    assert_eq!(
        decode_row(&row_with(2, Cell::TimestampTz(instant(1)))),
        Err(ShapeProblem::WrongType { column: 2 })
    );
    assert_eq!(
        decode_row(&row_with(4, Cell::Text(String::from("2020-01-01")))),
        Err(ShapeProblem::WrongType { column: 4 })
    );
    assert_eq!(decode_row(&row_with(5, Cell::Int4(0))), Err(ShapeProblem::WrongType { column: 5 }));
}

#[test]
fn the_first_misfit_of_a_row_is_named() {
    let mut row = good_row(1, 4_000);
    row[5] = Cell::Null;
    row[1] = Cell::Other;
    row[3] = Cell::Null;
    assert_eq!(decode_row(&row), Err(ShapeProblem::WrongType { column: 1 }));
}

#[test]
fn an_empty_result_is_no_sessions() {
    assert_eq!(find_iit(&Vec::new()), Ok(Vec::new()));
}

#[test]
fn rows_become_sessions_in_their_order() {
    let rows = vec![good_row(30, 100), good_row(10, 200), good_row(20, 300)];
    assert_eq!(
        find_iit(&rows),
        Ok(vec![good_record(30, 100), good_record(10, 200), good_record(20, 300)])
    );
}

#[test]
fn rows_are_not_sorted_on_the_way() {
    let rows = vec![good_row(1, 300), good_row(2, 100), good_row(3, 200)];
    let records = find_iit(&rows).unwrap();
    assert_eq!(records[0].pid, 1);
    assert_eq!(records[1].pid, 2);
    assert_eq!(records[2].pid, 3);
}

#[test]
fn the_first_unreadable_row_ends_the_fetch() {
    let mut short = good_row(2, 200);
    short.truncate(3);
    let rows = vec![good_row(1, 100), short, row_with(0, Cell::Null), good_row(4, 400)];
    assert_eq!(
        find_iit(&rows),
        Err(DataShapeError { row: 1, problem: ShapeProblem::WrongCount { found: 3 } })
    );
}

#[test]
fn an_unreadable_last_row_is_found() {
    let rows = vec![good_row(1, 100), good_row(2, 200), row_with(6, Cell::Null)];
    assert_eq!(
        find_iit(&rows),
        Err(DataShapeError { row: 2, problem: ShapeProblem::WrongType { column: 6 } })
    );
}
