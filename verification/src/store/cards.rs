//! Cards: creating, changing and moving them.
use crate::models::card::Card;
use crate::position::{Container, Id, PositionError, Slot};
use crate::store::table::Keyed;
use crate::store::{as_store_error, store_error, Store, StoreError};
use vstd::prelude::*;

verus! {

impl Store {
    /// What `create_card` answers.
    pub open spec fn create_card_verdict(&self, card: Card, column: Id, desired: Option<i32>) -> Result<
        i32,
        StoreError,
    > {
        if !self.columns().has(column) {
            Err(StoreError::NotFound)
        } else {
            match self.cards().insert_verdict(card.id, Container::Column(column), desired) {
                Ok(p) => Ok(p),
                Err(e) => Err(store_error(e)),
            }
        }
    }

    /// What `move_card` answers.
    pub open spec fn move_card_verdict(&self, id: Id, column: Id, desired: i32) -> Result<
        i32,
        StoreError,
    > {
        if !self.cards().has(id) || !self.columns().has(column) {
            Err(StoreError::NotFound)
        } else {
            match self.cards().move_verdict(id, Container::Column(column), desired) {
                Ok(p) => Ok(p),
                Err(e) => Err(store_error(e)),
            }
        }
    }

    /// The column that card `id` stands in, if it stands in one.
    pub open spec fn column_of(&self, id: Id) -> Option<Id> {
        match self.cards().slot(id).container {
            Container::Column(c) => Some(c),
            _ => None,
        }
    }

    /// Adds a card to a column: at `desired`, or behind the last card where no
    /// position is wanted.
    pub fn create_card(&mut self, card: Card, column: Id, desired: Option<i32>) -> (assigned: Result<
        i32,
        StoreError,
    >)
        requires
            old(self).wf(),
        ensures
            final(self).wf(),
            assigned == old(self).create_card_verdict(card, column, desired),
            assigned is Err ==> *final(self) == *old(self),
            assigned matches Ok(p) ==> {
                &&& final(self).same_but_cards(old(self))
                &&& final(self).cards().inserted(
                    &old(self).cards(),
                    card,
                    Container::Column(column),
                    p as int,
                )
            },
    {
        if !self.columns.contains(column) {
            return Err(StoreError::NotFound);
        }
        match self.cards.insert(card, Container::Column(column), desired) {
            Ok(p) => Ok(p),
            Err(e) => Err(as_store_error(e)),
        }
    }

    /// Adds a card that stands in no column: it goes to the inbox of its creator.
    pub fn create_standalone(&mut self, card: Card) -> (done: Result<(), StoreError>)
        requires
            old(self).wf(),
        ensures
            final(self).wf(),
            match old(self).cards().insert_verdict(
                card.id,
                Container::Inbox(card.created_by),
                None,
            ) {
                Ok(p) => done is Ok && final(self).same_but_cards(old(self))
                    && final(self).cards().inserted(
                    &old(self).cards(),
                    card,
                    Container::Inbox(card.created_by),
                    p as int,
                ),
                Err(e) => done == Err::<(), StoreError>(store_error(e)) && *final(self) == *old(
                    self,
                ),
            },
    {
        let home = Container::Inbox(card.created_by);
        match self.cards.insert(card, home, None) {
            Ok(_) => Ok(()),
            Err(e) => Err(as_store_error(e)),
        }
    }

    /// The card `id`.
    pub fn find_card(&self, id: Id) -> (found: Option<&Card>)
        requires
            self.wf(),
        ensures
            found is Some <==> self.cards().has(id),
            found matches Some(c) ==> *c == self.cards().get(id) && c.id == id,
    {
        self.cards.find(id)
    }

    /// Where card `id` stands.
    pub fn card_place(&self, id: Id) -> (found: Option<Slot>)
        requires
            self.wf(),
        ensures
            found is Some <==> self.cards().has(id),
            found matches Some(s) ==> {
                &&& s == self.cards().slot(id)
                &&& s.item == id
                &&& 0 <= s.position < self.cards().order(s.container).len()
                &&& self.cards().order(s.container)[s.position as int] == id
            },
    {
        self.cards.place(id)
    }

    /// The column that card `id` stands in: `None` for a card without a column, and
    /// for an identifier that names no card.
    pub fn card_column(&self, id: Id) -> (column: Option<Id>)
        requires
            self.wf(),
        ensures
            column == if self.cards().has(id) {
                self.column_of(id)
            } else {
                None
            },
    {
        match self.cards.place(id) {
            Some(s) => match s.container {
                Container::Column(c) => Some(c),
                _ => None,
            },
            None => None,
        }
    }

    /// The cards of `column`, by position.
    pub fn list_cards(&self, column: Id) -> (ids: Vec<Id>)
        requires
            self.wf(),
        ensures
            ids@ == self.cards().order(Container::Column(column)),
    {
        self.cards.list(Container::Column(column))
    }

    /// Puts `card` in the place of the card with its identifier; where it stands
    /// does not change.
    pub fn update_card(&mut self, card: Card) -> (done: Result<(), StoreError>)
        requires
            old(self).wf(),
        ensures
            final(self).wf(),
            done is Ok <==> old(self).cards().has(card.id),
            done matches Err(e) ==> e == StoreError::NotFound && *final(self) == *old(self),
            done is Ok ==> {
                &&& final(self).same_but_cards(old(self))
                &&& final(self).cards().replaced(&old(self).cards(), card)
            },
    {
        proof {
            if self.cards().has(card.id) {
                self.cards().lemma_placed(card.id);
            }
        }
        if self.cards.replace(card) {
            Ok(())
        } else {
            Err(StoreError::NotFound)
        }
    }

    /// Moves card `id` to position `desired` of `column`, which may be the column it
    /// is in.
    pub fn move_card(&mut self, id: Id, column: Id, desired: i32) -> (landed: Result<
        i32,
        StoreError,
    >)
        requires
            old(self).wf(),
        ensures
            final(self).wf(),
            landed == old(self).move_card_verdict(id, column, desired),
            landed is Err ==> *final(self) == *old(self),
            landed is Ok ==> {
                &&& final(self).same_but_cards(old(self))
                &&& final(self).cards().moved_to(
                    &old(self).cards(),
                    id,
                    Container::Column(column),
                    desired as int,
                )
            },
    {
        if !self.cards.contains(id) || !self.columns.contains(column) {
            return Err(StoreError::NotFound);
        }
        match self.cards.move_to(id, Container::Column(column), desired) {
            Ok(p) => Ok(p),
            Err(e) => Err(as_store_error(e)),
        }
    }
}

} // verus!
