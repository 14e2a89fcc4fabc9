//! Deleting records together with what hangs on them.
use crate::models::card::{Card, CardBoardAssignment};
use crate::models::tag::CardTag;
use crate::position::{Container, Id, PositionError};
use crate::store::sieve::{lemma_filter_agree, lemma_filter_distinct, retain_marked};
use crate::store::table::{Keyed, Table};
use crate::store::{attached_somewhere, holds, lanes_ok, Store, StoreError};
use vstd::prelude::*;

verus! {

/// Whether `x` is in `v`.
pub fn vec_has(v: &Vec<Id>, x: Id) -> (found: bool)
    ensures
        found == v@.contains(x),
{
    let mut i: usize = 0;
    while i < v.len()
        invariant
            i <= v.len(),
            forall|k: int| 0 <= k < i ==> v@[k] != x,
        decreases v.len() - i,
    {
        if v[i] == x {
            return true;
        }
        i += 1;
    }
    false
}

/// Purging attachments leaves no card attached to a board twice.
pub proof fn lemma_lanes_after_purge(
    now: Table<CardBoardAssignment>,
    was: Table<CardBoardAssignment>,
)
    requires
        lanes_ok(was),
        forall|a: Id| #[trigger] now.has(a) ==> was.has(a),
        forall|a: Id| now.has(a) ==> #[trigger] now.get(a) == was.get(a),
    ensures
        lanes_ok(now),
{
    reveal(lanes_ok);
    assert forall|a: Id, b: Id|
        #![trigger now.get(a), now.get(b)]
        now.has(a) && now.has(b) && a != b implies !(now.get(a).card_id == now.get(b).card_id
        && now.get(a).board_id == now.get(b).board_id) by {
        assert(was.has(a) && was.has(b));
        assert(now.get(a) == was.get(a));
        assert(now.get(b) == was.get(b));
    }
}

impl Store {
    /// The cards after column `col` has been emptied: a card of the column that is
    /// attached to a board stays, without a column, in the inbox of its creator;
    /// the other cards of the column are gone; every other card is where it was.
    pub open spec fn column_emptied(&self, before: &Store, col: Id) -> bool {
        let was = before.cards();
        let now = self.cards();
        let home = Container::Column(col);
        &&& forall|c: Id| #[trigger]
            now.has(c) <==> was.has(c) && (was.slot(c).container != home || attached_somewhere(
                self.assignments(),
                c,
            ))
        &&& forall|c: Id| now.has(c) ==> #[trigger] now.get(c) == was.get(c)
        &&& forall|c: Id|
            now.has(c) && was.slot(c).container != home ==> #[trigger] now.slot(c) == was.slot(c)
        &&& forall|c: Id|
            now.has(c) && was.slot(c).container == home ==> (#[trigger] now.slot(c)).container
                == Container::Inbox(was.get(c).created_by)
        &&& now.order(home) == Seq::<Id>::empty()
        &&& forall|d: Container| d !is Inbox && d != home ==> #[trigger] now.order(d) == was.order(d)
    }

    /// This store is `before` without the card `id`, its tags and its attachments.
    pub open spec fn card_deleted(&self, before: &Store, id: Id) -> bool {
        &&& self.same_boards(before)
        &&& self.columns() == before.columns()
        &&& self.tags() == before.tags()
        &&& self.cards().removed(&before.cards(), id)
        &&& self.assignments().purged(
            &before.assignments(),
            |a: Id| before.assignments().get(a).card_id != id,
        )
        &&& self.card_tags() == before.card_tags().filter(|ct: CardTag| ct.card_id != id)
    }

    /// This store is `before` without the column `id` and what was in it: its
    /// cards, with their tags, and the attachments that stood in it. A card of the
    /// column that is attached to a board has stayed, without a column.
    pub open spec fn column_deleted(&self, before: &Store, id: Id) -> bool {
        &&& self.same_boards(before)
        &&& self.tags() == before.tags()
        &&& self.columns().removed(&before.columns(), id)
        &&& self.assignments().cleared(
            &before.assignments(),
            Container::Lane(before.columns().get(id).board_id, Some(id)),
        )
        &&& self.column_emptied(before, id)
        &&& self.card_tags() == before.card_tags().filter(
            |ct: CardTag| !(before.cards().has(ct.card_id) && !self.cards().has(ct.card_id)),
        )
    }

    /// The attachments of `card`.
    pub(crate) fn attachments_of_card(&self, card: Id) -> (ids: Vec<Id>)
        requires
            self.wf(),
        ensures
            forall|a: Id|
                self.assignments().has(a) ==> (#[trigger] ids@.contains(a) <==> self.assignments().get(
                    a,
                ).card_id == card),
    {
        let mut ids: Vec<Id> = Vec::new();
        let mut i: usize = 0;
        while i < self.assignments.len()
            invariant
                self.wf(),
                i <= self.assignments().rows().len(),
                forall|a: Id| #[trigger]
                    ids@.contains(a) <==> exists|k: int|
                        0 <= k < i && (#[trigger] self.assignments().rows()[k]).id == a
                            && self.assignments().rows()[k].card_id == card,
            decreases self.assignments().rows().len() - i,
        {
            let ghost prev = ids@;
            let row = self.assignments.row(i);
            if row.card_id == card {
                ids.push(row.id);
                proof {
                    assert forall|a: Id| #[trigger] ids@.contains(a) <==> prev.contains(a) || a
                        == row.id by {
                        if prev.contains(a) {
                            let j: int = prev.index_of(a);
                            assert(ids@[j] == a);
                        }
                        if a == row.id {
                            assert(ids@[prev.len() as int] == a);
                        }
                    }
                }
            }
            proof {
                assert forall|a: Id| #[trigger]
                    ids@.contains(a) <==> exists|k: int|
                        0 <= k < i + 1 && (#[trigger] self.assignments().rows()[k]).id == a
                            && self.assignments().rows()[k].card_id == card by {
                    if ids@.contains(a) {
                        if prev.contains(a) {
                            let k: int = choose|k: int|
                                0 <= k < i && (#[trigger] self.assignments().rows()[k]).id == a
                                    && self.assignments().rows()[k].card_id == card;
                            assert(0 <= k < i + 1 && self.assignments().rows()[k].id == a);
                        } else {
                            assert(self.assignments().rows()[i as int].id == a);
                        }
                    }
                    if exists|k: int|
                        0 <= k < i + 1 && (#[trigger] self.assignments().rows()[k]).id == a
                            && self.assignments().rows()[k].card_id == card {
                        let k: int = choose|k: int|
                            0 <= k < i + 1 && (#[trigger] self.assignments().rows()[k]).id == a
                                && self.assignments().rows()[k].card_id == card;
                        if k < i {
                            assert(prev.contains(a));
                        }
                    }
                }
            }
            i += 1;
        }
        proof {
            assert forall|a: Id| self.assignments().has(a) implies (#[trigger] ids@.contains(a)
                <==> self.assignments().get(a).card_id == card) by {
                let j: int = self.assignments().row_of(a);
                self.assignments().lemma_row(j);
                if ids@.contains(a) {
                    let k: int = choose|k: int|
                        0 <= k < i && (#[trigger] self.assignments().rows()[k]).id == a
                            && self.assignments().rows()[k].card_id == card;
                    self.assignments().lemma_row(k);
                }
                if self.assignments().get(a).card_id == card {
                    assert(self.assignments().rows()[j].id == a);
                }
            }
        }
        ids
    }

    /// Takes the tags off every card that `gone` names.
    pub(crate) fn drop_card_tags_of(&mut self, gone: &Vec<Id>)
        requires
            old(self).wf(),
        ensures
            final(self).wf(),
            final(self).same_but_card_tags(old(self)),
            final(self).card_tags() == old(self).card_tags().filter(
                |ct: CardTag| !gone@.contains(ct.card_id),
            ),
    {
        let ghost pred = |ct: CardTag| !gone@.contains(ct.card_id);
        let mut keep: Vec<bool> = Vec::new();
        let mut i: usize = 0;
        while i < self.card_tags.len()
            invariant
                i <= self.card_tags.len(),
                keep.len() == i,
                forall|k: int|
                    0 <= k < i ==> keep[k] == !gone@.contains((#[trigger] self.card_tags@[k]).card_id),
            decreases self.card_tags.len() - i,
        {
            keep.push(!vec_has(gone, self.card_tags[i].card_id));
            i += 1;
        }
        proof {
            lemma_filter_distinct(self.card_tags@, pred);
        }
        retain_marked(&mut self.card_tags, &keep, Ghost(pred));
    }

    /// Deletes a card: it leaves its column, and its tags and its attachments go
    /// with it.
    pub fn delete_card(&mut self, id: Id) -> (done: Result<(), StoreError>)
        requires
            old(self).wf(),
        ensures
            final(self).wf(),
            done is Ok <==> old(self).cards().has(id),
            done matches Err(e) ==> e == StoreError::NotFound && *final(self) == *old(self),
            done is Ok ==> final(self).card_deleted(old(self), id),
    {
        if !self.cards.contains(id) {
            return Err(StoreError::NotFound);
        }
        let ghost before = *self;
        let doomed = self.attachments_of_card(id);
        self.cards.remove(id);
        self.assignments.purge(&doomed);
        proof {
            self.assignments().lemma_purged_agree(
                &before.assignments(),
                |a: Id| !doomed@.contains(a),
                |a: Id| before.assignments().get(a).card_id != id,
            );
            lemma_lanes_after_purge(self.assignments(), before.assignments());
        }
        self.drop_card_tags_of_card(id);
        Ok(())
    }

    // Empties column `col`: see `column_emptied`. Says which cards are gone.
    pub(crate) fn empty_column(&mut self, col: Id) -> (gone: Vec<Id>)
        requires
            old(self).wf(),
            old(self).cards().rows().len() <= i32::MAX,
        ensures
            final(self).wf(),
            final(self).same_but_cards(old(self)),
            final(self).column_emptied(old(self), col),
            final(self).cards().rows().len() <= old(self).cards().rows().len(),
            forall|c: Id| #[trigger]
                gone@.contains(c) <==> old(self).cards().has(c) && !final(self).cards().has(c),
    {
        let ghost before = *self;
        let ghost was = before.cards();
        let home = Container::Column(col);
        let ids = self.cards.list(home);
        let mut gone: Vec<Id> = Vec::new();
        let mut k: usize = ids.len();
        proof {
            assert(ids@.take(k as int) =~= ids@);
            assert forall|c: Id| was.has(c) implies !(was.slot(c).container == home && (
            #[trigger] was.slot(c)).position >= k) by {
                was.lemma_placed(c);
            }
        }
        while k > 0
            invariant
                self.wf(),
                before.wf(),
                was == before.cards(),
                home == Container::Column(col),
                self.same_but_cards(&before),
                self.cards().rows().len() <= was.rows().len(),
                was.rows().len() <= i32::MAX,
                k <= ids.len(),
                ids@ == was.order(home),
                self.cards().order(home) == ids@.take(k as int),
                forall|c: Id| #[trigger]
                    self.cards().has(c) <==> was.has(c) && !(was.slot(c).container == home
                        && was.slot(c).position >= k && !attached_somewhere(
                        self.assignments(),
                        c,
                    )),
                forall|c: Id| self.cards().has(c) ==> #[trigger] self.cards().get(c) == was.get(c),
                forall|c: Id|
                    self.cards().has(c) && !(was.slot(c).container == home && was.slot(c).position
                        >= k) ==> #[trigger] self.cards().slot(c) == was.slot(c),
                forall|c: Id|
                    self.cards().has(c) && was.slot(c).container == home && was.slot(c).position
                        >= k ==> (#[trigger] self.cards().slot(c)).container == Container::Inbox(
                        was.get(c).created_by,
                    ),
                forall|d: Container|
                    d !is Inbox && d != home ==> #[trigger] self.cards().order(d) == was.order(d),
                forall|c: Id| #[trigger] gone@.contains(c) <==> was.has(c) && !self.cards().has(c),
            decreases k,
        {
            let ghost mid = self.cards();
            let ghost prev = gone@;
            k -= 1;
            let id = ids[k];
            proof {
                assert(mid.order(home)[k as int] == id);
                mid.lemma_order(home);
                was.lemma_order(home);
                assert(was.slot(id).container == home && was.slot(id).position == k);
            }
            if self.is_card_attached(id) {
                let creator = match self.cards.find(id) {
                    Some(card) => card.created_by,
                    None => 0,
                };
                let inbox = Container::Inbox(creator);
                let n: usize = self.cards.count(inbox);
                proof {
                    mid.lemma_size(inbox);
                }
                let landed = self.cards.move_to(id, inbox, n as i32);
                proof {
                    let now = self.cards();
                    assert(landed is Ok);
                    assert(now.order(home) =~= ids@.take(k as int)) by {
                        assert(ids@.take(k + 1).remove(k as int) =~= ids@.take(k as int));
                    }
                    assert forall|c: Id| #[trigger] now.has(c) <==> mid.has(c) by {
                        if now.has(c) {
                            assert(mid.rows()[now.row_of(c)].key() == c);
                        }
                        if mid.has(c) {
                            assert(now.rows()[mid.row_of(c)].key() == c);
                        }
                    }
                    assert forall|c: Id| now.has(c) implies #[trigger] now.get(c) == was.get(c) by {
                        assert(mid.get(c) == was.get(c));
                    }
                    assert forall|c: Id| mid.has(c) && c != id implies #[trigger] now.slot(c)
                        == mid.slot(c) by {
                        mid.lemma_placed(c);
                        if mid.slot(c).container == home && mid.slot(c).position == k {
                            assert(mid.order(home)[k as int] == c);
                        }
                    }
                    assert forall|d: Container| d !is Inbox && d != home implies #[trigger] now.order(
                        d,
                    ) == was.order(d) by {
                        assert(mid.order(d) == was.order(d));
                    }
                    assert forall|c: Id|
                        now.has(c) && !(was.slot(c).container == home && was.slot(c).position
                            >= k) implies #[trigger] now.slot(c) == was.slot(c) by {
                        assert(mid.slot(c) == was.slot(c));
                    }
                    assert forall|c: Id|
                        now.has(c) && was.slot(c).container == home && was.slot(c).position
                            >= k implies (#[trigger] now.slot(c)).container == Container::Inbox(
                        was.get(c).created_by,
                    ) by {
                        if c != id {
                            assert(mid.slot(c).container == Container::Inbox(
                                was.get(c).created_by,
                            ));
                        } else {
                            assert(mid.get(c) == was.get(c));
                        }
                    }
                }
            } else {
                self.cards.remove(id);
                gone.push(id);
                proof {
                    let now = self.cards();
                    assert(now.order(home) =~= ids@.take(k as int)) by {
                        assert(ids@.take(k + 1).remove(k as int) =~= ids@.take(k as int));
                    }
                    assert forall|c: Id| mid.has(c) && c != id implies #[trigger] now.slot(c)
                        == mid.slot(c) by {
                        mid.lemma_placed(c);
                        if mid.slot(c).container == home && mid.slot(c).position == k {
                            assert(mid.order(home)[k as int] == c);
                        }
                    }
                    assert forall|c: Id| now.has(c) implies #[trigger] now.get(c) == was.get(c) by {
                        assert(mid.get(c) == was.get(c));
                    }
                    assert forall|d: Container| d !is Inbox && d != home implies #[trigger] now.order(
                        d,
                    ) == was.order(d) by {
                        assert(mid.order(d) == was.order(d));
                    }
                    assert forall|c: Id|
                        now.has(c) && !(was.slot(c).container == home && was.slot(c).position
                            >= k) implies #[trigger] now.slot(c) == was.slot(c) by {
                        assert(mid.slot(c) == was.slot(c));
                    }
                    assert forall|c: Id|
                        now.has(c) && was.slot(c).container == home && was.slot(c).position
                            >= k implies (#[trigger] now.slot(c)).container == Container::Inbox(
                        was.get(c).created_by,
                    ) by {
                        assert(mid.slot(c).container == Container::Inbox(was.get(c).created_by));
                    }
                    assert forall|c: Id| #[trigger] gone@.contains(c) <==> was.has(c) && !now.has(
                        c,
                    ) by {
                        if prev.contains(c) {
                            let j: int = prev.index_of(c);
                            assert(gone@[j] == c);
                        }
                        if c == id {
                            assert(gone@[prev.len() as int] == c);
                        }
                        if gone@.contains(c) && c != id {
                            let j: int = gone@.index_of(c);
                            assert(prev[j] == c);
                        }
                    }
                }
            }
        }
        proof {
            assert(ids@.take(0) =~= Seq::<Id>::empty());
            assert forall|c: Id| was.has(c) implies (#[trigger] was.slot(c)).position >= 0 by {
                was.lemma_placed(c);
            }
        }
        gone
    }

    /// What `delete_column` answers.
    pub open spec fn delete_column_verdict(&self, id: Id) -> Result<(), StoreError> {
        if !self.columns().has(id) {
            Err(StoreError::NotFound)
        } else if self.cards().rows().len() > i32::MAX {
            Err(StoreError::Full)
        } else {
            Ok(())
        }
    }

    /// Deletes a column with what is in it: its cards, with their tags, and the
    /// attachments that stand in it. A card of the column that is attached to a
    /// board stays, without a column.
    pub fn delete_column(&mut self, id: Id) -> (done: Result<(), StoreError>)
        requires
            old(self).wf(),
        ensures
            final(self).wf(),
            done is Ok <==> old(self).delete_column_verdict(id) is Ok,
            done matches Err(e) ==> old(self).delete_column_verdict(id) == Err::<(), StoreError>(e)
                && *final(self) == *old(self),
            done is Ok ==> final(self).column_deleted(old(self), id),
    {
        let board = match self.columns.find(id) {
            None => {
                return Err(StoreError::NotFound);
            },
            Some(c) => c.board_id,
        };
        if self.cards.len() > i32::MAX as usize {
            return Err(StoreError::Full);
        }
        let ghost before = *self;
        self.assignments.clear(Container::Lane(board, Some(id)));
        proof {
            lemma_lanes_after_purge(self.assignments(), before.assignments());
        }
        let gone = self.empty_column(id);
        self.drop_card_tags_of(&gone);
        self.columns.remove(id);
        proof {
            lemma_filter_agree(
                before.card_tags(),
                |ct: CardTag| !gone@.contains(ct.card_id),
                |ct: CardTag|
                    !(before.cards().has(ct.card_id) && !final(self).cards().has(ct.card_id)),
            );
        }
        Ok(())
    }
}

} // verus!
