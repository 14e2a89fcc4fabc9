//! Requests on columns.
use crate::access::{can_edit, may_edit};
use crate::error::{refusal, refuse, AppError, AppErrorView};
use crate::handlers::boards::refused;
use crate::models::column::{Column, CreateColumn, MoveColumn, UpdateColumn};
use crate::position::{Container, Id};
use crate::store::Store;
use vstd::prelude::*;
use vstd::string::*;

verus! {

/// Adds a column to a board, for a user who may edit the board. A column needs a
/// name; without a position it goes behind the last column.
pub fn create_column(store: &mut Store, user: Id, board: Id, new_id: Id, input: CreateColumn) -> (result:
    Result<i32, AppError>)
    requires
        old(store).wf(),
    ensures
        final(store).wf(),
        if !may_edit(old(store).role(board, user)) {
            refused(result, AppErrorView::Forbidden) && *final(store) == *old(store)
        } else if input.name@.len() == 0 {
            refused(result, AppErrorView::Validation("Column name is required"@)) && *final(store)
                == *old(store)
        } else {
            let column = Column { id: new_id, board_id: board, name: input.name };
            match old(store).create_column_verdict(column, input.position) {
                Err(e) => refused(result, refusal(e)) && *final(store) == *old(store),
                Ok(p) => {
                    &&& result == Ok::<i32, AppError>(p)
                    &&& final(store).same_but_columns(old(store))
                    &&& final(store).columns().inserted(
                        &old(store).columns(),
                        column,
                        Container::Board(board),
                        p as int,
                    )
                },
            }
        },
{
    if !can_edit(store.get_user_role(board, user)) {
        return Err(AppError::Forbidden);
    }
    if input.name.as_str().unicode_len() == 0 {
        return Err(AppError::Validation("Column name is required".to_owned()));
    }
    let column = Column { id: new_id, board_id: board, name: input.name };
    match store.create_column(column, input.position) {
        Err(e) => Err(refuse(e)),
        Ok(p) => Ok(p),
    }
}

/// The columns of a board by position, for a user who holds a role on the board.
pub fn list_columns(store: &Store, user: Id, board: Id) -> (result: Result<Vec<Id>, AppError>)
    requires
        store.wf(),
    ensures
        if store.role(board, user) is None {
            refused(result, AppErrorView::Forbidden)
        } else {
            result matches Ok(ids) && ids@ == store.columns().order(Container::Board(board))
        },
{
    if store.get_user_role(board, user).is_none() {
        return Err(AppError::Forbidden);
    }
    Ok(store.list_columns(board))
}

/// Renames a column, for a user who may edit its board. Without a new name the
/// column stays as it is.
pub fn update_column(store: &mut Store, user: Id, column: Id, input: UpdateColumn) -> (result:
    Result<(), AppError>)
    requires
        old(store).wf(),
    ensures
        final(store).wf(),
        if !old(store).columns().has(column) {
            refused(result, AppErrorView::NotFound) && *final(store) == *old(store)
        } else if !may_edit(old(store).role(old(store).columns().get(column).board_id, user)) {
            refused(result, AppErrorView::Forbidden) && *final(store) == *old(store)
        } else {
            result is Ok && match input.name {
                None => *final(store) == *old(store),
                Some(name) => {
                    &&& final(store).same_but_columns(old(store))
                    &&& final(store).columns().get(column).name@ == name@
                    &&& final(store).columns().get(column).board_id == old(store).columns().get(
                        column,
                    ).board_id
                    &&& final(store).columns().replaced(
                        &old(store).columns(),
                        final(store).columns().get(column),
                    )
                },
            }
        },
{
    let board = match store.find_column(column) {
        None => {
            return Err(AppError::NotFound);
        },
        Some(c) => c.board_id,
    };
    if !can_edit(store.get_user_role(board, user)) {
        return Err(AppError::Forbidden);
    }
    match &input.name {
        None => Ok(()),
        Some(name) => match store.rename_column(column, name.as_str()) {
            Err(e) => Err(refuse(e)),
            Ok(()) => Ok(()),
        },
    }
}

/// Deletes a column with what is in it, for a user who may edit its board.
pub fn delete_column(store: &mut Store, user: Id, column: Id) -> (result: Result<(), AppError>)
    requires
        old(store).wf(),
    ensures
        final(store).wf(),
        if !old(store).columns().has(column) {
            refused(result, AppErrorView::NotFound) && *final(store) == *old(store)
        } else if !may_edit(old(store).role(old(store).columns().get(column).board_id, user)) {
            refused(result, AppErrorView::Forbidden) && *final(store) == *old(store)
        } else {
            match old(store).delete_column_verdict(column) {
                Err(e) => refused(result, refusal(e)) && *final(store) == *old(store),
                Ok(_) => result is Ok && final(store).column_deleted(old(store), column),
            }
        },
{
    let board = match store.find_column(column) {
        None => {
            return Err(AppError::NotFound);
        },
        Some(c) => c.board_id,
    };
    if !can_edit(store.get_user_role(board, user)) {
        return Err(AppError::Forbidden);
    }
    match store.delete_column(column) {
        Err(e) => Err(refuse(e)),
        Ok(()) => Ok(()),
    }
}

/// Moves a column to a position among the columns of its board, for a user who
/// may edit the board.
pub fn move_column(store: &mut Store, user: Id, column: Id, input: MoveColumn) -> (result: Result<
    i32,
    AppError,
>)
    requires
        old(store).wf(),
    ensures
        final(store).wf(),
        if !old(store).columns().has(column) {
            refused(result, AppErrorView::NotFound) && *final(store) == *old(store)
        } else if !may_edit(old(store).role(old(store).columns().get(column).board_id, user)) {
            refused(result, AppErrorView::Forbidden) && *final(store) == *old(store)
        } else {
            match old(store).move_column_verdict(column, input.position) {
                Err(e) => refused(result, refusal(e)) && *final(store) == *old(store),
                Ok(p) => {
                    &&& result == Ok::<i32, AppError>(p)
                    &&& p == input.position
                    &&& final(store).same_but_columns(old(store))
                    &&& final(store).columns().moved_to(
                        &old(store).columns(),
                        column,
                        Container::Board(old(store).columns().get(column).board_id),
                        p as int,
                    )
                },
            }
        },
{
    let board = match store.find_column(column) {
        None => {
            return Err(AppError::NotFound);
        },
        Some(c) => c.board_id,
    };
    if !can_edit(store.get_user_role(board, user)) {
        return Err(AppError::Forbidden);
    }
    match store.move_column(column, input.position) {
        Err(e) => Err(refuse(e)),
        Ok(p) => Ok(p),
    }
}

} // verus!
