//! Lists read off the store: the roles on a board, the tags of a card, the
//! cards attached to a board.
use crate::models::board::BoardPermission;
use crate::models::card::CardBoardAssignment;
use crate::models::tag::CardTag;
use crate::position::Id;
use crate::store::Store;
use vstd::prelude::*;

verus! {

/// The roles held on `board`, in the order in which they were given.
pub open spec fn roles_on(permissions: Seq<BoardPermission>, board: Id) -> Seq<BoardPermission> {
    permissions.filter(|p: BoardPermission| p.board_id == board)
}

/// The tags that `card` carries, in the order in which they were put on it.
pub open spec fn tags_on(card_tags: Seq<CardTag>, card: Id) -> Seq<Id> {
    card_tags.filter(|t: CardTag| t.card_id == card).map_values(|t: CardTag| t.tag_id)
}

/// The cards attached to `board`, in the order in which they were attached.
pub open spec fn cards_attached_to(rows: Seq<CardBoardAssignment>, board: Id) -> Seq<Id> {
    rows.filter(|a: CardBoardAssignment| a.board_id == board).map_values(
        |a: CardBoardAssignment| a.card_id,
    )
}

impl Store {
    /// The roles held on `board`, in the order in which they were given.
    pub fn list_permissions(&self, board: Id) -> (list: Vec<BoardPermission>)
        ensures
            list@ == roles_on(self.permissions(), board),
    {
        let mut list: Vec<BoardPermission> = Vec::new();
        let mut i: usize = 0;
        proof {
            reveal(Seq::filter);
            assert(self.permissions().take(0) =~= Seq::<BoardPermission>::empty());
        }
        while i < self.permissions.len()
            invariant
                i <= self.permissions().len(),
                self.permissions@ == self.permissions(),
                list@ == roles_on(self.permissions().take(i as int), board),
            decreases self.permissions().len() - i,
        {
            let entry = self.permissions[i];
            proof {
                reveal(Seq::filter);
                assert(self.permissions().take(i + 1).drop_last() =~= self.permissions().take(
                    i as int,
                ));
            }
            if entry.board_id == board {
                list.push(entry);
            }
            i += 1;
        }
        proof {
            assert(self.permissions().take(i as int) =~= self.permissions());
        }
        list
    }

    /// The tags that `card` carries, in the order in which they were put on it.
    pub fn list_for_card(&self, card: Id) -> (tags: Vec<Id>)
        ensures
            tags@ == tags_on(self.card_tags(), card),
    {
        let mut tags: Vec<Id> = Vec::new();
        let mut i: usize = 0;
        proof {
            reveal(Seq::filter);
            assert(self.card_tags().take(0) =~= Seq::<CardTag>::empty());
            assert(tags_on(Seq::<CardTag>::empty(), card) =~= Seq::<Id>::empty());
        }
        while i < self.card_tags.len()
            invariant
                i <= self.card_tags().len(),
                self.card_tags@ == self.card_tags(),
                tags@ == tags_on(self.card_tags().take(i as int), card),
            decreases self.card_tags().len() - i,
        {
            let entry = self.card_tags[i];
            proof {
                reveal(Seq::filter);
                let mine = |t: CardTag| t.card_id == card;
                let to_tag = |t: CardTag| t.tag_id;
                let rows = self.card_tags();
                assert(rows.take(i + 1).drop_last() =~= rows.take(i as int));
                if entry.card_id == card {
                    assert(rows.take(i + 1).filter(mine).map_values(to_tag) =~= rows.take(
                        i as int,
                    ).filter(mine).map_values(to_tag).push(entry.tag_id));
                }
            }
            if entry.card_id == card {
                tags.push(entry.tag_id);
            }
            i += 1;
        }
        proof {
            assert(self.card_tags().take(i as int) =~= self.card_tags());
        }
        tags
    }

    /// The cards attached to `board`, in the order in which they were attached.
    pub fn list_cards_for_board(&self, board: Id) -> (cards: Vec<Id>)
        requires
            self.wf(),
        ensures
            cards@ == cards_attached_to(self.assignments().rows(), board),
    {
        let mut cards: Vec<Id> = Vec::new();
        let mut i: usize = 0;
        proof {
            reveal(Seq::filter);
            assert(self.assignments().rows().take(0) =~= Seq::<CardBoardAssignment>::empty());
            assert(cards_attached_to(Seq::<CardBoardAssignment>::empty(), board) =~= Seq::<
                Id,
            >::empty());
        }
        while i < self.assignments.len()
            invariant
                i <= self.assignments().rows().len(),
                cards@ == cards_attached_to(self.assignments().rows().take(i as int), board),
            decreases self.assignments().rows().len() - i,
        {
            let row = self.assignments.row(i);
            proof {
                reveal(Seq::filter);
                let rows = self.assignments().rows();
                let mine = |a: CardBoardAssignment| a.board_id == board;
                let to_card = |a: CardBoardAssignment| a.card_id;
                assert(rows.take(i + 1).drop_last() =~= rows.take(i as int));
                if row.board_id == board {
                    assert(rows.take(i + 1).filter(mine).map_values(to_card) =~= rows.take(
                        i as int,
                    ).filter(mine).map_values(to_card).push(row.card_id));
                }
            }
            if row.board_id == board {
                cards.push(row.card_id);
            }
            i += 1;
        }
        proof {
            assert(self.assignments().rows().take(i as int) =~= self.assignments().rows());
        }
        cards
    }
}

} // verus!
