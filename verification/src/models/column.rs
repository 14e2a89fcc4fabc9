//! Columns.
use crate::position::Id;
use vstd::prelude::*;

verus! {

/// A column of a board. Its position among the columns of the board is kept by
/// the store that holds it.
#[derive(Clone, Debug, PartialEq, Eq)]
pub struct Column {
    pub id: Id,
    pub board_id: Id,
    pub name: String,
}

/// A request to create a column; without a position it goes to the end.
#[derive(Clone, Debug, PartialEq, Eq)]
pub struct CreateColumn {
    pub name: String,
    pub position: Option<i32>,
}

/// A request to rename a column.
#[derive(Clone, Debug, PartialEq, Eq)]
pub struct UpdateColumn {
    pub name: Option<String>,
}

/// A request to move a column to a position of its board.
#[derive(Clone, Copy, Debug, PartialEq, Eq, Structural)]
pub struct MoveColumn {
    pub position: i32,
}

} // verus!
