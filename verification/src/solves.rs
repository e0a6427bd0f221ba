use vstd::prelude::*;

use crate::ids::UserId;

verus! {

/// `sqlx::Error`, carried through unread.
#[verifier::external_type_specification]
#[verifier::external_body]
pub struct ExSqlxError(sqlx::Error);

/// One column of a table as SQLite describes it.
#[derive(Debug, Clone, PartialEq, Eq)]
pub struct Column {
    pub name: String,
    pub kind: String,
    pub not_null: bool,
    pub primary_key: bool,
}

/// The solves table's columns, in order.
pub open spec fn solves_schema() -> Seq<(Seq<char>, Seq<char>, bool, bool)> {
    seq![
        ("id"@, "INTEGER"@, false, true),
        ("guild_id"@, "INTEGER"@, true, false),
        ("user_id"@, "INTEGER"@, true, false),
        ("ship_index"@, "TEXT"@, true, false),
        ("elapsed_ms"@, "INTEGER"@, true, false),
        ("solved_at_ms"@, "INTEGER"@, true, false),
    ]
}

pub open spec fn column_parts(column: Column) -> (Seq<char>, Seq<char>, bool, bool) {
    (column.name@, column.kind@, column.not_null, column.primary_key)
}

pub open spec fn columns_parts(columns: Seq<Column>) -> Seq<(Seq<char>, Seq<char>, bool, bool)> {
    columns.map_values(|column: Column| column_parts(column))
}

/// A player's record in one server.
#[derive(Debug, Clone, Copy, PartialEq, Eq, Structural)]
pub struct Profile {
    pub wins: u64,
    pub best_ms: Option<u64>,
}

/// How the leaderboard is ordered.
#[derive(Debug, Clone, Copy, PartialEq, Eq, Structural)]
pub enum Ranking {
    MostWins,
    FastestTime,
}

impl Default for Ranking {
    fn default() -> (ranking: Self)
        ensures
            ranking == Ranking::MostWins,
    {
        Ranking::MostWins
    }
}

/// One line of the leaderboard.
#[derive(Debug, Clone, Copy, PartialEq, Eq, Structural)]
pub struct Standing {
    pub user: UserId,
    pub wins: u64,
    pub best_ms: u64,
}

#[derive(Debug)]
pub enum SolvesError {
    Database(sqlx::Error),
    MissingTable,
    UnexpectedColumns { found: Vec<Column> },
    OutOfRange { value: u128 },
    Negative { value: i64 },
}

/// A value read from the table, which must not be negative.
pub fn to_unsigned(value: i64) -> (unsigned: Result<u64, SolvesError>)
    ensures
        match unsigned {
            Ok(unsigned) => value >= 0 && unsigned == value,
            Err(SolvesError::Negative { value: found }) => value < 0 && found == value,
            Err(_) => false,
        },
{
    if value >= 0 {
        Ok(value as u64)
    } else {
        Err(SolvesError::Negative { value })
    }
}

/// A value to store, which must fit in a SQLite integer.
pub fn to_integer(value: u128) -> (integer: Result<i64, SolvesError>)
    ensures
        match integer {
            Ok(integer) => value <= i64::MAX && integer == value,
            Err(SolvesError::OutOfRange { value: found }) => value > i64::MAX && found == value,
            Err(_) => false,
        },
{
    if value <= i64::MAX as u128 {
        Ok(value as i64)
    } else {
        Err(SolvesError::OutOfRange { value })
    }
}

/// Whether a solve in `elapsed_ms` beats the player's earlier best, if they had one.
pub fn is_personal_best(previous_best_ms: Option<i64>, elapsed_ms: i64) -> (best: bool)
    ensures
        best == match previous_best_ms {
            Some(previous) => elapsed_ms < previous,
            None => true,
        },
{
    match previous_best_ms {
        Some(previous) => elapsed_ms < previous,
        None => true,
    }
}

pub(crate) fn column(name: &str, kind: &str, not_null: bool, primary_key: bool) -> (column: Column)
    ensures
        column_parts(column) == (name@, kind@, not_null, primary_key),
{
    Column { name: name.to_owned(), kind: kind.to_owned(), not_null, primary_key }
}

/// The columns the solves table must have.
pub fn expected_columns() -> (columns: Vec<Column>)
    ensures
        columns_parts(columns@) == solves_schema(),
{
    let mut columns: Vec<Column> = Vec::new();
    columns.push(column("id", "INTEGER", false, true));
    columns.push(column("guild_id", "INTEGER", true, false));
    columns.push(column("user_id", "INTEGER", true, false));
    columns.push(column("ship_index", "TEXT", true, false));
    columns.push(column("elapsed_ms", "INTEGER", true, false));
    columns.push(column("solved_at_ms", "INTEGER", true, false));
    assert(columns_parts(columns@) =~= solves_schema());
    columns
}

/// Whether two column lists describe the same table.
pub fn same_columns(found: &Vec<Column>, expected: &Vec<Column>) -> (same: bool)
    ensures
        same == (columns_parts(found@) == columns_parts(expected@)),
{
    if found.len() != expected.len() {
        proof {
            assert(columns_parts(found@).len() != columns_parts(expected@).len());
        }
        return false;
    }
    let mut index: usize = 0;
    while index < found.len()
        invariant
            found.len() == expected.len(),
            index <= found.len(),
            forall|i: int|
                0 <= i < index ==> column_parts(#[trigger] found@[i]) == column_parts(expected@[i]),
        decreases found.len() - index,
    {
        let a = &found[index];
        let b = &expected[index];
        if !(a.name == b.name && a.kind == b.kind && a.not_null == b.not_null && a.primary_key
            == b.primary_key) {
            proof {
                assert(columns_parts(found@)[index as int] != columns_parts(expected@)[index as int]);
            }
            return false;
        }
        index = index + 1;
    }
    assert(columns_parts(found@) =~= columns_parts(expected@));
    true
}

/// What is wrong with the solves table as found, if anything.
pub fn schema_problem(found: Vec<Column>) -> (problem: Result<(), SolvesError>)
    ensures
        match problem {
            Ok(()) => columns_parts(found@) == solves_schema(),
            Err(SolvesError::MissingTable) => found@.len() == 0,
            Err(SolvesError::UnexpectedColumns { found: listed }) => found@.len() != 0
                && columns_parts(found@) != solves_schema() && listed@ == found@,
            Err(_) => false,
        },
{
    if found.len() == 0 {
        return Err(SolvesError::MissingTable);
    }
    let expected = expected_columns();
    if same_columns(&found, &expected) {
        Ok(())
    } else {
        Err(SolvesError::UnexpectedColumns { found })
    }
}

} // verus!
