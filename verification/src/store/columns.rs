//! Columns: creating, renaming and reordering them.
use crate::models::column::Column;
use crate::position::{Container, Id, PositionError};
use crate::store::table::Keyed;
use crate::store::{as_store_error, has_board, store_error, Store, StoreError};
use vstd::prelude::*;
use vstd::string::*;

verus! {

impl Store {
    /// What `create_column` answers.
    pub open spec fn create_column_verdict(&self, column: Column, desired: Option<i32>) -> Result<
        i32,
        StoreError,
    > {
        if !has_board(self.boards(), column.board_id) {
            Err(StoreError::NotFound)
        } else {
            match self.columns().insert_verdict(
                column.id,
                Container::Board(column.board_id),
                desired,
            ) {
                Ok(p) => Ok(p),
                Err(e) => Err(store_error(e)),
            }
        }
    }

    /// What `move_column` answers.
    pub open spec fn move_column_verdict(&self, id: Id, desired: i32) -> Result<i32, StoreError> {
        if !self.columns().has(id) {
            Err(StoreError::NotFound)
        } else {
            match self.columns().move_verdict(
                id,
                Container::Board(self.columns().get(id).board_id),
                desired,
            ) {
                Ok(p) => Ok(p),
                Err(e) => Err(store_error(e)),
            }
        }
    }

    /// Adds a column to its board: at `desired`, or behind the last column where no
    /// position is wanted.
    pub fn create_column(&mut self, column: Column, desired: Option<i32>) -> (assigned: Result<
        i32,
        StoreError,
    >)
        requires
            old(self).wf(),
        ensures
            final(self).wf(),
            assigned == old(self).create_column_verdict(column, desired),
            assigned is Err ==> *final(self) == *old(self),
            assigned matches Ok(p) ==> {
                &&& final(self).same_but_columns(old(self))
                &&& final(self).columns().inserted(
                    &old(self).columns(),
                    column,
                    Container::Board(column.board_id),
                    p as int,
                )
            },
    {
        if self.find_board_row(column.board_id).is_none() {
            return Err(StoreError::NotFound);
        }
        let home = Container::Board(column.board_id);
        match self.columns.insert(column, home, desired) {
            Ok(p) => Ok(p),
            Err(e) => Err(as_store_error(e)),
        }
    }

    /// The column `id`.
    pub fn find_column(&self, id: Id) -> (found: Option<&Column>)
        requires
            self.wf(),
        ensures
            found is Some <==> self.columns().has(id),
            found matches Some(c) ==> *c == self.columns().get(id) && c.id == id,
    {
        self.columns.find(id)
    }

    /// The position of column `id` on its board.
    pub fn column_position(&self, id: Id) -> (found: Option<i32>)
        requires
            self.wf(),
        ensures
            found is Some <==> self.columns().has(id),
            found matches Some(p) ==> {
                &&& p == self.columns().slot(id).position
                &&& self.columns().slot(id).container == Container::Board(
                    self.columns().get(id).board_id,
                )
            },
    {
        match self.columns.place(id) {
            Some(s) => Some(s.position),
            None => None,
        }
    }

    /// The columns of `board`, by position.
    pub fn list_columns(&self, board: Id) -> (ids: Vec<Id>)
        requires
            self.wf(),
        ensures
            ids@ == self.columns().order(Container::Board(board)),
    {
        self.columns.list(Container::Board(board))
    }

    /// Gives column `id` a new name.
    pub fn rename_column(&mut self, id: Id, name: &str) -> (done: Result<(), StoreError>)
        requires
            old(self).wf(),
        ensures
            final(self).wf(),
            done is Ok <==> old(self).columns().has(id),
            done matches Err(e) ==> e == StoreError::NotFound && *final(self) == *old(self),
            done is Ok ==> {
                &&& final(self).same_but_columns(old(self))
                &&& final(self).columns().get(id).name@ == name@
                &&& final(self).columns().get(id).board_id == old(self).columns().get(id).board_id
                &&& final(self).columns().replaced(&old(self).columns(), final(self).columns().get(id))
            },
    {
        let board = match self.columns.find(id) {
            None => {
                return Err(StoreError::NotFound);
            },
            Some(c) => c.board_id,
        };
        proof {
            self.columns.lemma_placed(id);
        }
        let row = Column { id, board_id: board, name: name.to_owned() };
        self.columns.replace(row);
        Ok(())
    }

    /// Moves column `id` to position `desired` among the columns of its board.
    pub fn move_column(&mut self, id: Id, desired: i32) -> (landed: Result<i32, StoreError>)
        requires
            old(self).wf(),
        ensures
            final(self).wf(),
            landed == old(self).move_column_verdict(id, desired),
            landed is Err ==> *final(self) == *old(self),
            landed is Ok ==> {
                &&& final(self).same_but_columns(old(self))
                &&& final(self).columns().moved_to(
                    &old(self).columns(),
                    id,
                    Container::Board(old(self).columns().get(id).board_id),
                    desired as int,
                )
            },
    {
        let board = match self.columns.find(id) {
            None => {
                return Err(StoreError::NotFound);
            },
            Some(c) => c.board_id,
        };
        match self.columns.move_to(id, Container::Board(board), desired) {
            Ok(p) => Ok(p),
            Err(e) => Err(as_store_error(e)),
        }
    }
}

} // verus!
