//! Questions to the store that span its tables.
use crate::access::holds_card;
use crate::models::board::BoardRole;
use crate::models::card::{is_within, within, Card, CardBoardAssignment, CardFilter, CardStatus, CardVisibility};
use crate::position::{Container, Id};
use crate::store::{tagged, Store, StoreError};
use crate::text::{contains_text, lower, lowercase, occurs_in};
use vstd::prelude::*;

verus! {

/// Whether a role, or none, lets its holder see a card of this visibility when
/// the cards of a board are listed: owners and editors see every card, readers
/// all but the private ones, and strangers the public ones.
pub open spec fn shown_to(role: Option<BoardRole>, visibility: CardVisibility) -> bool {
    match role {
        Some(BoardRole::Owner) => true,
        Some(BoardRole::Editor) => true,
        Some(BoardRole::Reader) => visibility != CardVisibility::Private,
        None => visibility == CardVisibility::Public,
    }
}

/// Whether a role, or none, lets its holder see a card of this visibility when
/// the cards of a board are listed.
pub fn is_shown_to(role: Option<BoardRole>, visibility: CardVisibility) -> (shown: bool)
    ensures
        shown == shown_to(role, visibility),
{
    match role {
        Some(BoardRole::Owner) => true,
        Some(BoardRole::Editor) => true,
        Some(BoardRole::Reader) => match visibility {
            CardVisibility::Private => false,
            _ => true,
        },
        None => match visibility {
            CardVisibility::Public => true,
            _ => false,
        },
    }
}

/// Whether the title or the body of the card holds the query, case aside.
pub open spec fn mentions(card: Card, query: Seq<char>) -> bool {
    occurs_in(lowercase(card.title@), lowercase(query)) || (card.body matches Some(b)
        && occurs_in(lowercase(b@), lowercase(query)))
}

/// Whether the title or the body of the card holds the query, case aside.
pub fn does_mention(card: &Card, query: &str) -> (found: bool)
    ensures
        found == mentions(*card, query@),
{
    let wanted = lower(query);
    let title = lower(card.title.as_str());
    if contains_text(title.as_str(), wanted.as_str()) {
        return true;
    }
    match &card.body {
        Some(b) => {
            let body = lower(b.as_str());
            contains_text(body.as_str(), wanted.as_str())
        },
        None => false,
    }
}

impl Store {
    /// The board of the column that the card stands in, if there is such a card
    /// and it stands in a column.
    pub open spec fn home_board(&self, card: Id) -> Option<Id> {
        if !self.cards().has(card) {
            None
        } else {
            match self.column_of(card) {
                Some(col) => if self.columns().has(col) {
                    Some(self.columns().get(col).board_id)
                } else {
                    None
                },
                None => None,
            }
        }
    }

    /// The boards that the card is on: the board of its column, if it has one,
    /// and then the boards that it is attached to, in the order in which it was
    /// attached.
    pub open spec fn card_boards(&self, card: Id) -> Seq<Id> {
        (match self.home_board(card) {
            Some(b) => seq![b],
            None => Seq::<Id>::empty(),
        }) + self.assignments().rows().filter(
            |a: CardBoardAssignment| a.card_id == card,
        ).map_values(|a: CardBoardAssignment| a.board_id)
    }

    /// The role of `user` on each board that the card is on.
    pub open spec fn card_roles(&self, card: Id, user: Id) -> Seq<Option<BoardRole>> {
        self.card_boards(card).map_values(|b: Id| self.role(b, user))
    }

    /// Whether the card carries one of the tags.
    pub open spec fn carries_any(&self, card: Id, tags: Seq<Id>) -> bool {
        exists|k: int| 0 <= k < tags.len() && tagged(self.card_tags(), card, #[trigger] tags[k])
    }

    /// Whether the card is listed for a holder of `role` who asks with `filter`.
    pub open spec fn passes(&self, card: Card, role: Option<BoardRole>, filter: CardFilter) -> bool {
        &&& shown_to(role, card.visibility)
        &&& filter.query matches Some(q) ==> mentions(card, q@)
        &&& within(card.start_date, filter.start_date_from, filter.start_date_to)
        &&& within(card.end_date, filter.end_date_from, filter.end_date_to)
        &&& within(card.due_date, filter.due_date_from, filter.due_date_to)
        &&& (filter.tags matches Some(tags) && tags@.len() > 0) ==> self.carries_any(
            card.id,
            filter.tags->0@,
        )
    }

    /// The cards of `column` that are listed, by position.
    pub open spec fn listed_in(&self, column: Id, role: Option<BoardRole>, filter: CardFilter) -> Seq<
        Id,
    > {
        self.cards().order(Container::Column(column)).filter(
            |c: Id| self.passes(self.cards().get(c), role, filter),
        )
    }

    /// The cards of the columns `columns` that are listed: column after column,
    /// and by position within a column.
    pub open spec fn listed_among(
        &self,
        columns: Seq<Id>,
        role: Option<BoardRole>,
        filter: CardFilter,
    ) -> Seq<Id>
        decreases columns.len(),
    {
        if columns.len() == 0 {
            Seq::<Id>::empty()
        } else {
            self.listed_among(columns.drop_last(), role, filter) + self.listed_in(
                columns.last(),
                role,
                filter,
            )
        }
    }

    /// The cards that `user` holds, as their owner or their creator, with the
    /// status `status` where one is asked for, in the order of their creation.
    pub open spec fn held_by(&self, user: Id, status: Option<CardStatus>) -> Seq<Id> {
        self.cards().rows().filter(
            |c: Card| holds_card(c, user) && (status matches Some(s) ==> c.status == s),
        ).map_values(|c: Card| c.id)
    }

    /// The board of the column that the card stands in.
    pub fn get_board_id_for_card(&self, card: Id) -> (board: Option<Id>)
        requires
            self.wf(),
        ensures
            board == self.home_board(card),
    {
        match self.card_column(card) {
            Some(col) => match self.columns.find(col) {
                Some(column) => Some(column.board_id),
                None => None,
            },
            None => None,
        }
    }

    /// The role of `user` on each board that the card is on.
    pub fn roles_on_card(&self, card: Id, user: Id) -> (roles: Vec<Option<BoardRole>>)
        requires
            self.wf(),
        ensures
            roles@ == self.card_roles(card, user),
    {
        let mut boards: Vec<Id> = Vec::new();
        match self.get_board_id_for_card(card) {
            Some(b) => {
                boards.push(b);
            },
            None => {},
        }
        let mut attached = self.boards_of_card(card);
        boards.append(&mut attached);
        assert(boards@ =~= self.card_boards(card));
        let mut roles: Vec<Option<BoardRole>> = Vec::new();
        let mut i: usize = 0;
        while i < boards.len()
            invariant
                self.wf(),
                i <= boards.len(),
                roles.len() == i,
                forall|k: int| 0 <= k < i ==> roles@[k] == self.role(boards@[k], user),
            decreases boards.len() - i,
        {
            roles.push(self.get_user_role(boards[i], user));
            i += 1;
        }
        assert(roles@ =~= boards@.map_values(|b: Id| self.role(b, user)));
        roles
    }

    /// Whether the card carries one of the tags.
    pub fn has_any_tag(&self, card: Id, tags: &Vec<Id>) -> (found: bool)
        ensures
            found == self.carries_any(card, tags@),
    {
        let mut i: usize = 0;
        while i < tags.len()
            invariant
                i <= tags.len(),
                forall|k: int| 0 <= k < i ==> !tagged(self.card_tags(), card, #[trigger] tags@[k]),
            decreases tags.len() - i,
        {
            if self.has_card_tag(card, tags[i]) {
                return true;
            }
            i += 1;
        }
        false
    }

    /// Whether the card is listed for a holder of `role` who asks with `filter`.
    pub fn card_passes(&self, card: &Card, role: Option<BoardRole>, filter: &CardFilter) -> (ok:
        bool)
        ensures
            ok == self.passes(*card, role, *filter),
    {
        if !is_shown_to(role, card.visibility) {
            return false;
        }
        match &filter.query {
            Some(q) => {
                if !does_mention(card, q.as_str()) {
                    return false;
                }
            },
            None => {},
        }
        if !is_within(card.start_date, filter.start_date_from, filter.start_date_to) {
            return false;
        }
        if !is_within(card.end_date, filter.end_date_from, filter.end_date_to) {
            return false;
        }
        if !is_within(card.due_date, filter.due_date_from, filter.due_date_to) {
            return false;
        }
        match &filter.tags {
            Some(tags) => {
                if tags.len() > 0 && !self.has_any_tag(card.id, tags) {
                    return false;
                }
            },
            None => {},
        }
        true
    }

    /// The cards of `board` that a holder of `role` is shown when asking with
    /// `filter`: the columns by position, and the cards of a column by position.
    pub fn list_by_board_with_filter(
        &self,
        board: Id,
        role: Option<BoardRole>,
        filter: &CardFilter,
    ) -> (cards: Vec<Id>)
        requires
            self.wf(),
        ensures
            cards@ == self.listed_among(
                self.columns().order(Container::Board(board)),
                role,
                *filter,
            ),
    {
        let columns = self.columns.list(Container::Board(board));
        let mut cards: Vec<Id> = Vec::new();
        let mut i: usize = 0;
        proof {
            assert(columns@.take(0) =~= Seq::<Id>::empty());
        }
        while i < columns.len()
            invariant
                self.wf(),
                i <= columns.len(),
                cards@ == self.listed_among(columns@.take(i as int), role, *filter),
            decreases columns.len() - i,
        {
            let ids = self.cards.list(Container::Column(columns[i]));
            let ghost so_far = cards@;
            let ghost test = |c: Id| self.passes(self.cards().get(c), role, *filter);
            let mut j: usize = 0;
            proof {
                reveal(Seq::filter);
                assert(ids@.take(0) =~= Seq::<Id>::empty());
                self.cards().lemma_order(Container::Column(columns@[i as int]));
            }
            while j < ids.len()
                invariant
                    self.wf(),
                    j <= ids.len(),
                    test == |c: Id| self.passes(self.cards().get(c), role, *filter),
                    forall|p: int| 0 <= p < ids.len() ==> self.cards().has(#[trigger] ids@[p]),
                    cards@ == so_far + ids@.take(j as int).filter(test),
                decreases ids.len() - j,
            {
                proof {
                    reveal(Seq::filter);
                    assert(ids@.take(j + 1).drop_last() =~= ids@.take(j as int));
                    assert(self.cards().has(ids@[j as int]));
                }
                match self.cards.find(ids[j]) {
                    Some(card) => {
                        if self.card_passes(card, role, filter) {
                            cards.push(ids[j]);
                            proof {
                                assert(cards@ =~= so_far + ids@.take(j + 1).filter(test));
                            }
                        }
                    },
                    None => {},
                }
                j += 1;
            }
            proof {
                assert(ids@.take(j as int) =~= ids@);
                assert(columns@.take(i + 1).drop_last() =~= columns@.take(i as int));
            }
            i += 1;
        }
        proof {
            assert(columns@.take(i as int) =~= columns@);
        }
        cards
    }

    /// The cards that `user` holds, as their owner or their creator, with the
    /// status `status` where one is asked for, in the order of their creation.
    pub fn list_by_owner_with_status(&self, user: Id, status: Option<CardStatus>) -> (cards: Vec<
        Id,
    >)
        ensures
            cards@ == self.held_by(user, status),
    {
        let ghost test = |c: Card| holds_card(c, user) && (status matches Some(s) ==> c.status == s);
        let ghost to_id = |c: Card| c.id;
        let mut cards: Vec<Id> = Vec::new();
        let mut i: usize = 0;
        proof {
            reveal(Seq::filter);
            assert(self.cards().rows().take(0) =~= Seq::<Card>::empty());
            assert(Seq::<Card>::empty().filter(test).map_values(to_id) =~= Seq::<Id>::empty());
        }
        while i < self.cards.len()
            invariant
                i <= self.cards().rows().len(),
                cards@ == self.cards().rows().take(i as int).filter(
                    |c: Card| holds_card(c, user) && (status matches Some(s) ==> c.status == s),
                ).map_values(|c: Card| c.id),
            decreases self.cards().rows().len() - i,
        {
            let card = self.cards.row(i);
            let mine = card.owner_id == Some(user) || card.created_by == user;
            let wanted = match status {
                Some(s) => card.status == s,
                None => true,
            };
            proof {
                reveal(Seq::filter);
                let rows = self.cards().rows();
                let test = |c: Card|
                    holds_card(c, user) && (status matches Some(s) ==> c.status == s);
                let to_id = |c: Card| c.id;
                assert(rows.take(i + 1).drop_last() =~= rows.take(i as int));
                if mine && wanted {
                    assert(rows.take(i + 1).filter(test).map_values(to_id) =~= rows.take(
                        i as int,
                    ).filter(test).map_values(to_id).push(card.id));
                }
            }
            if mine && wanted {
                cards.push(card.id);
            }
            i += 1;
        }
        proof {
            assert(self.cards().rows().take(i as int) =~= self.cards().rows());
        }
        cards
    }

    /// Sets the status of a card.
    pub fn update_status(&mut self, id: Id, status: CardStatus) -> (done: Result<(), StoreError>)
        requires
            old(self).wf(),
        ensures
            final(self).wf(),
            done is Ok <==> old(self).cards().has(id),
            done matches Err(e) ==> e == StoreError::NotFound && *final(self) == *old(self),
            done is Ok ==> {
                &&& final(self).same_but_cards(old(self))
                &&& final(self).cards().replaced(
                    &old(self).cards(),
                    Card { status, ..old(self).cards().get(id) },
                )
            },
    {
        let mut card = match self.cards.find(id) {
            None => {
                return Err(StoreError::NotFound);
            },
            Some(card) => card.copy(),
        };
        card.status = status;
        self.update_card(card)
    }
}

} // verus!
