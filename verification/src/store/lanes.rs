//! Attachments of cards to boards.
use crate::models::card::CardBoardAssignment;
use crate::position::{Container, Id, PositionError};
use crate::store::table::{Keyed, Table};
use crate::store::{
    as_store_error, attached, attached_somewhere, attachment, has_board, holds, lanes_ok,
    store_error, ties, Store, StoreError,
};
use vstd::prelude::*;

verus! {

/// In a valid store the attachment of a card to a board is the only one.
pub proof fn lemma_one_attachment(store: &Store, a: Id, card: Id, board: Id)
    requires
        store.wf(),
        ties(store.assignments(), a, card, board),
    ensures
        attached(store.assignments(), card, board),
        attachment(store.assignments(), card, board) == a,
{
    reveal(lanes_ok);
    let b = attachment(store.assignments(), card, board);
    assert(ties(store.assignments(), b, card, board));
    if a != b {
        assert(store.assignments().get(a).card_id == store.assignments().get(b).card_id);
    }
}

impl Store {
    /// What `assign_card_to_board` answers.
    pub open spec fn assign_verdict(
        &self,
        id: Id,
        card: Id,
        board: Id,
        column: Option<Id>,
        desired: Option<i32>,
    ) -> Result<i32, StoreError> {
        if !self.cards().has(card) || !has_board(self.boards(), board) {
            Err(StoreError::NotFound)
        } else if column is Some && !self.columns().has(column->0) {
            Err(StoreError::NotFound)
        } else if column is Some && self.columns().get(column->0).board_id != board {
            Err(StoreError::WrongBoard)
        } else if attached(self.assignments(), card, board) {
            Err(StoreError::AlreadyAttached)
        } else {
            match self.assignments().insert_verdict(id, Container::Lane(board, column), desired) {
                Ok(p) => Ok(p),
                Err(e) => Err(store_error(e)),
            }
        }
    }

    /// What `move_card_in_board` answers.
    pub open spec fn move_in_board_verdict(
        &self,
        card: Id,
        board: Id,
        column: Option<Id>,
        desired: i32,
    ) -> Result<i32, StoreError> {
        if !attached(self.assignments(), card, board) {
            Err(StoreError::NotFound)
        } else if column is Some && !self.columns().has(column->0) {
            Err(StoreError::NotFound)
        } else if column is Some && self.columns().get(column->0).board_id != board {
            Err(StoreError::WrongBoard)
        } else {
            match self.assignments().move_verdict(
                attachment(self.assignments(), card, board),
                Container::Lane(board, column),
                desired,
            ) {
                Ok(p) => Ok(p),
                Err(e) => Err(store_error(e)),
            }
        }
    }

    /// The attachment of `card` to `board`.
    pub fn find_assignment(&self, card: Id, board: Id) -> (found: Option<Id>)
        requires
            self.wf(),
        ensures
            found is Some <==> attached(self.assignments(), card, board),
            found matches Some(a) ==> a == attachment(self.assignments(), card, board) && ties(
                self.assignments(),
                a,
                card,
                board,
            ),
    {
        let mut i: usize = 0;
        while i < self.assignments.len()
            invariant
                self.wf(),
                i <= self.assignments().rows().len(),
                forall|k: int|
                    0 <= k < i ==> !((#[trigger] self.assignments().rows()[k]).card_id == card
                        && self.assignments().rows()[k].board_id == board),
            decreases self.assignments().rows().len() - i,
        {
            let row = self.assignments.row(i);
            if row.card_id == card && row.board_id == board {
                proof {
                    self.assignments().lemma_row(i as int);
                    lemma_one_attachment(self, row.id, card, board);
                }
                return Some(row.id);
            }
            i += 1;
        }
        proof {
            if attached(self.assignments(), card, board) {
                let a = attachment(self.assignments(), card, board);
                let k: int = self.assignments().row_of(a);
                assert(self.assignments().rows()[k].card_id == card);
            }
        }
        None
    }

    /// Whether `card` is attached to `board`.
    pub fn is_card_on_board(&self, card: Id, board: Id) -> (on: bool)
        requires
            self.wf(),
        ensures
            on == attached(self.assignments(), card, board),
    {
        self.find_assignment(card, board).is_some()
    }

    /// Whether `card` is attached to any board.
    pub fn is_card_attached(&self, card: Id) -> (on: bool)
        requires
            self.wf(),
        ensures
            on == attached_somewhere(self.assignments(), card),
    {
        let mut i: usize = 0;
        while i < self.assignments.len()
            invariant
                self.wf(),
                i <= self.assignments().rows().len(),
                forall|k: int|
                    0 <= k < i ==> (#[trigger] self.assignments().rows()[k]).card_id != card,
            decreases self.assignments().rows().len() - i,
        {
            if self.assignments.row(i).card_id == card {
                proof {
                    self.assignments().lemma_row(i as int);
                    assert(holds(self.assignments(), self.assignments().rows()[i as int].id, card));
                }
                return true;
            }
            i += 1;
        }
        proof {
            if attached_somewhere(self.assignments(), card) {
                let a = choose|a: Id| holds(self.assignments(), a, card);
                let k: int = self.assignments().row_of(a);
                assert(self.assignments().rows()[k].card_id == card);
            }
        }
        false
    }

    /// The boards that `card` is attached to, in the order in which it was
    /// attached.
    pub fn boards_of_card(&self, card: Id) -> (boards: Vec<Id>)
        requires
            self.wf(),
        ensures
            boards@ == self.assignments().rows().filter(
                |a: CardBoardAssignment| a.card_id == card,
            ).map_values(|a: CardBoardAssignment| a.board_id),
    {
        let ghost mine = |a: CardBoardAssignment| a.card_id == card;
        let ghost to_board = |a: CardBoardAssignment| a.board_id;
        let mut boards: Vec<Id> = Vec::new();
        let mut i: usize = 0;
        proof {
            reveal(Seq::filter);
            assert(self.assignments().rows().take(0) =~= Seq::<CardBoardAssignment>::empty());
            assert(Seq::<CardBoardAssignment>::empty().filter(mine).map_values(to_board) =~= Seq::<
                Id,
            >::empty());
        }
        while i < self.assignments.len()
            invariant
                i <= self.assignments().rows().len(),
                boards@ == self.assignments().rows().take(i as int).filter(
                    |a: CardBoardAssignment| a.card_id == card,
                ).map_values(|a: CardBoardAssignment| a.board_id),
            decreases self.assignments().rows().len() - i,
        {
            let row = self.assignments.row(i);
            proof {
                reveal(Seq::filter);
                let rows = self.assignments().rows();
                let mine = |a: CardBoardAssignment| a.card_id == card;
                let to_board = |a: CardBoardAssignment| a.board_id;
                assert(rows.take(i + 1).drop_last() =~= rows.take(i as int));
                if row.card_id == card {
                    assert(rows.take(i + 1).filter(mine).map_values(to_board) =~= rows.take(
                        i as int,
                    ).filter(mine).map_values(to_board).push(row.board_id));
                }
            }
            if row.card_id == card {
                boards.push(row.board_id);
            }
            i += 1;
        }
        proof {
            assert(self.assignments().rows().take(i as int) =~= self.assignments().rows());
        }
        boards
    }

    /// Attaches a card to a board, in one of its columns or in none: at `desired`
    /// of that lane, or at its end where no position is wanted.
    pub fn assign_card_to_board(
        &mut self,
        id: Id,
        card: Id,
        board: Id,
        column: Option<Id>,
        desired: Option<i32>,
    ) -> (assigned: Result<i32, StoreError>)
        requires
            old(self).wf(),
        ensures
            final(self).wf(),
            assigned == old(self).assign_verdict(id, card, board, column, desired),
            assigned is Err ==> *final(self) == *old(self),
            assigned matches Ok(p) ==> {
                &&& final(self).same_but_assignments(old(self))
                &&& final(self).assignments().inserted(
                    &old(self).assignments(),
                    CardBoardAssignment { id, card_id: card, board_id: board },
                    Container::Lane(board, column),
                    p as int,
                )
            },
    {
        if !self.cards.contains(card) || self.find_board_row(board).is_none() {
            return Err(StoreError::NotFound);
        }
        match column {
            Some(c) => match self.columns.find(c) {
                None => {
                    return Err(StoreError::NotFound);
                },
                Some(col) => {
                    if col.board_id != board {
                        return Err(StoreError::WrongBoard);
                    }
                },
            },
            None => {},
        }
        if self.find_assignment(card, board).is_some() {
            return Err(StoreError::AlreadyAttached);
        }
        let ghost before = *self;
        let row = CardBoardAssignment { id, card_id: card, board_id: board };
        match self.assignments.insert(row, Container::Lane(board, column), desired) {
            Err(e) => Err(as_store_error(e)),
            Ok(p) => {
                proof {
                    reveal(lanes_ok);
                    let t = self.assignments();
                    let t0 = before.assignments();
                    assert forall|a: Id, b: Id|
                        #![trigger t.get(a), t.get(b)]
                        t.has(a) && t.has(b) && a != b implies !(t.get(a).card_id == t.get(
                        b,
                    ).card_id && t.get(a).board_id == t.get(b).board_id) by {
                        if a == id {
                            assert(t0.has(b));
                            assert(t.get(b) == t0.get(b));
                            assert(!ties(t0, b, card, board));
                        } else if b == id {
                            assert(t0.has(a));
                            assert(t.get(a) == t0.get(a));
                            assert(!ties(t0, a, card, board));
                        } else {
                            assert(t.get(a) == t0.get(a));
                            assert(t.get(b) == t0.get(b));
                        }
                    }
                }
                Ok(p)
            },
        }
    }

    /// Detaches a card from a board. The card itself stays.
    pub fn remove_card_from_board(&mut self, card: Id, board: Id) -> (done: Result<(), StoreError>)
        requires
            old(self).wf(),
        ensures
            final(self).wf(),
            done is Ok <==> attached(old(self).assignments(), card, board),
            done matches Err(e) ==> e == StoreError::NotFound && *final(self) == *old(self),
            done is Ok ==> {
                &&& final(self).same_but_assignments(old(self))
                &&& final(self).assignments().removed(
                    &old(self).assignments(),
                    attachment(old(self).assignments(), card, board),
                )
            },
    {
        let a = match self.find_assignment(card, board) {
            None => {
                return Err(StoreError::NotFound);
            },
            Some(a) => a,
        };
        let ghost before = *self;
        self.assignments.remove(a);
        proof {
            reveal(lanes_ok);
            let t = self.assignments();
            let t0 = before.assignments();
            assert forall|x: Id, y: Id|
                #![trigger t.get(x), t.get(y)]
                t.has(x) && t.has(y) && x != y implies !(t.get(x).card_id == t.get(y).card_id
                && t.get(x).board_id == t.get(y).board_id) by {
                assert(t.get(x) == t0.get(x));
                assert(t.get(y) == t0.get(y));
            }
        }
        Ok(())
    }

    /// Moves an attached card within its board: to position `desired` of the lane
    /// of `column`, or of the lane without a column.
    pub fn move_card_in_board(&mut self, card: Id, board: Id, column: Option<Id>, desired: i32) -> (landed:
        Result<i32, StoreError>)
        requires
            old(self).wf(),
        ensures
            final(self).wf(),
            landed == old(self).move_in_board_verdict(card, board, column, desired),
            landed is Err ==> *final(self) == *old(self),
            landed is Ok ==> {
                &&& final(self).same_but_assignments(old(self))
                &&& final(self).assignments().moved_to(
                    &old(self).assignments(),
                    attachment(old(self).assignments(), card, board),
                    Container::Lane(board, column),
                    desired as int,
                )
            },
    {
        let a = match self.find_assignment(card, board) {
            None => {
                return Err(StoreError::NotFound);
            },
            Some(a) => a,
        };
        match column {
            Some(c) => match self.columns.find(c) {
                None => {
                    return Err(StoreError::NotFound);
                },
                Some(col) => {
                    if col.board_id != board {
                        return Err(StoreError::WrongBoard);
                    }
                },
            },
            None => {},
        }
        let ghost before = *self;
        match self.assignments.move_to(a, Container::Lane(board, column), desired) {
            Err(e) => Err(as_store_error(e)),
            Ok(p) => {
                proof {
                    reveal(lanes_ok);
                    let t = self.assignments();
                    let t0 = before.assignments();
                    assert forall|x: Id| #[trigger] t.has(x) <==> t0.has(x) by {
                        if t.has(x) {
                            assert(t0.rows()[t.row_of(x)].key() == x);
                        }
                        if t0.has(x) {
                            assert(t.rows()[t0.row_of(x)].key() == x);
                        }
                    }
                    assert forall|x: Id, y: Id|
                        #![trigger t.get(x), t.get(y)]
                        t.has(x) && t.has(y) && x != y implies !(t.get(x).card_id == t.get(
                        y,
                    ).card_id && t.get(x).board_id == t.get(y).board_id) by {
                        assert(t.get(x) == t0.get(x));
                        assert(t.get(y) == t0.get(y));
                    }
                }
                Ok(p)
            },
        }
    }
}

} // verus!
