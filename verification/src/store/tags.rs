//! Tags, and which card carries which.
use crate::models::tag::{CardTag, Tag};
use crate::position::Id;
use crate::store::sieve::{lemma_filter_distinct, retain_marked};
use crate::store::{has_board, has_tag, tag_row, tagged, tags_ok, Store, StoreError};
use vstd::prelude::*;
use vstd::string::*;

verus! {

/// A tag row is the row of its identifier.
pub proof fn lemma_tag_row(store: &Store, k: int)
    requires
        store.wf(),
        0 <= k < store.tags().len(),
    ensures
        has_tag(store.tags(), store.tags()[k].id),
        tag_row(store.tags(), store.tags()[k].id) == k,
        store.tag(store.tags()[k].id) == store.tags()[k],
{
    reveal(tags_ok);
    let id = store.tags()[k].id;
    let j: int = tag_row(store.tags(), id);
    if j < k {
        assert(store.tags()[j].id != store.tags()[k].id);
    } else if k < j {
        assert(store.tags()[k].id != store.tags()[j].id);
    }
}

/// Tag scope. In a valid store every tag belongs either to a board or to a user,
/// never to both and never to neither.
pub proof fn law_tag_scope(store: &Store, id: Id)
    requires
        store.wf(),
        has_tag(store.tags(), id),
    ensures
        store.tag(id).board_id is Some != store.tag(id).owner_id is Some,
{
    reveal(tags_ok);
    let k: int = tag_row(store.tags(), id);
    assert(store.tags()[k].scoped());
}

impl Store {
    /// This store is `before` with one more tag, the last created: a tag `id` of
    /// `board` with this name and colour.
    pub open spec fn tag_created(
        &self,
        before: &Store,
        id: Id,
        board: Id,
        name: Seq<char>,
        color: Seq<char>,
    ) -> bool {
        &&& self.same_but_tags(before)
        &&& self.tags().len() == before.tags().len() + 1
        &&& self.tags().drop_last() == before.tags()
        &&& self.tags().last().id == id
        &&& self.tags().last().board_id == Some(board)
        &&& self.tags().last().owner_id == None::<Id>
        &&& self.tags().last().name@ == name
        &&& self.tags().last().color@ == color
    }

    /// This store is `before` with `tag` on `card`.
    pub open spec fn tag_put_on(&self, before: &Store, card: Id, tag: Id) -> bool {
        &&& self.same_but_card_tags(before)
        &&& self.card_tags() == if tagged(before.card_tags(), card, tag) {
            before.card_tags()
        } else {
            before.card_tags().push(CardTag { card_id: card, tag_id: tag })
        }
    }

    /// This store is `before` without the tag `id`, which is off every card.
    pub open spec fn tag_deleted(&self, before: &Store, id: Id) -> bool {
        &&& self.same_boards(before)
        &&& self.columns() == before.columns()
        &&& self.cards() == before.cards()
        &&& self.assignments() == before.assignments()
        &&& self.tags() == before.tags().remove(tag_row(before.tags(), id))
        &&& self.card_tags() == before.card_tags().filter(|ct: CardTag| ct.tag_id != id)
    }

    pub(crate) fn find_tag_row(&self, id: Id) -> (found: Option<usize>)
        requires
            self.wf(),
        ensures
            match found {
                Some(k) => k < self.tags().len() && self.tags()[k as int].id == id && has_tag(
                    self.tags(),
                    id,
                ) && tag_row(self.tags(), id) == k,
                None => !has_tag(self.tags(), id),
            },
    {
        let mut i: usize = 0;
        while i < self.tags.len()
            invariant
                self.wf(),
                i <= self.tags.len(),
                forall|k: int| 0 <= k < i ==> (#[trigger] self.tags@[k]).id != id,
            decreases self.tags.len() - i,
        {
            if self.tags[i].id == id {
                proof {
                    lemma_tag_row(self, i as int);
                }
                return Some(i);
            }
            i += 1;
        }
        None
    }

    fn push_tag(&mut self, tag: Tag) -> (done: Result<(), StoreError>)
        requires
            old(self).wf(),
            tag.scoped(),
        ensures
            final(self).wf(),
            done is Err <==> has_tag(old(self).tags(), tag.id),
            done matches Err(e) ==> e == StoreError::DuplicateId && *final(self) == *old(self),
            done is Ok ==> final(self).same_but_tags(old(self)) && final(self).tags() == old(
                self,
            ).tags().push(tag),
    {
        if self.find_tag_row(tag.id).is_some() {
            return Err(StoreError::DuplicateId);
        }
        let ghost before = *self;
        self.tags.push(tag);
        proof {
            reveal(tags_ok);
            let after = *self;
            assert forall|i: int, j: int| 0 <= i < j < after.tags().len() implies (
            #[trigger] after.tags()[i]).id != (#[trigger] after.tags()[j]).id by {
                if j < before.tags().len() {
                    assert(before.tags()[i].id != before.tags()[j].id);
                } else {
                    assert(before.tags()[i].id != tag.id);
                }
            }
        }
        Ok(())
    }

    /// Creates a tag that belongs to `board`.
    pub fn create_tag(&mut self, id: Id, board: Id, name: &str, color: &str) -> (done: Result<
        (),
        StoreError,
    >)
        requires
            old(self).wf(),
        ensures
            final(self).wf(),
            done is Err <==> !has_board(old(self).boards(), board) || has_tag(old(self).tags(), id),
            done matches Err(e) ==> *final(self) == *old(self) && e == if !has_board(
                old(self).boards(),
                board,
            ) {
                StoreError::NotFound
            } else {
                StoreError::DuplicateId
            },
            done is Ok ==> final(self).tag_created(old(self), id, board, name@, color@),
    {
        if self.find_board_row(board).is_none() {
            return Err(StoreError::NotFound);
        }
        let tag = Tag {
            id,
            board_id: Some(board),
            owner_id: None,
            name: name.to_owned(),
            color: color.to_owned(),
        };
        let done = self.push_tag(tag);
        proof {
            if done is Ok {
                assert(final(self).tags().drop_last() =~= old(self).tags());
            }
        }
        done
    }

    /// Creates a tag that belongs to the user `owner`.
    pub fn create_global_tag(&mut self, id: Id, owner: Id, name: &str, color: &str) -> (done: Result<
        (),
        StoreError,
    >)
        requires
            old(self).wf(),
        ensures
            final(self).wf(),
            done is Err <==> has_tag(old(self).tags(), id),
            done matches Err(e) ==> e == StoreError::DuplicateId && *final(self) == *old(self),
            done is Ok ==> {
                &&& final(self).same_but_tags(old(self))
                &&& final(self).tags().len() == old(self).tags().len() + 1
                &&& final(self).tags().drop_last() == old(self).tags()
                &&& final(self).tags().last().id == id
                &&& final(self).tags().last().board_id == None::<Id>
                &&& final(self).tags().last().owner_id == Some(owner)
                &&& final(self).tags().last().name@ == name@
                &&& final(self).tags().last().color@ == color@
            },
    {
        let tag = Tag {
            id,
            board_id: None,
            owner_id: Some(owner),
            name: name.to_owned(),
            color: color.to_owned(),
        };
        let done = self.push_tag(tag);
        proof {
            if done is Ok {
                assert(final(self).tags().drop_last() =~= old(self).tags());
            }
        }
        done
    }

    /// The tag `id`.
    pub fn find_tag(&self, id: Id) -> (found: Option<&Tag>)
        requires
            self.wf(),
        ensures
            found is Some <==> has_tag(self.tags(), id),
            found matches Some(t) ==> *t == self.tag(id) && t.id == id,
    {
        match self.find_tag_row(id) {
            Some(k) => Some(&self.tags[k]),
            None => None,
        }
    }

    /// How many tags there are.
    pub fn tag_count(&self) -> (n: usize)
        ensures
            n == self.tags().len(),
    {
        self.tags.len()
    }

    /// The tag in row `k`, rows being in the order of creation.
    pub fn tag_at(&self, k: usize) -> (t: &Tag)
        requires
            k < self.tags().len(),
        ensures
            *t == self.tags()[k as int],
    {
        &self.tags[k]
    }

    /// Gives tag `id` a new name, a new colour, or both; what is `None` stays.
    pub fn update_tag(&mut self, id: Id, name: Option<&str>, color: Option<&str>) -> (done: Result<
        (),
        StoreError,
    >)
        requires
            old(self).wf(),
        ensures
            final(self).wf(),
            done is Ok <==> has_tag(old(self).tags(), id),
            done matches Err(e) ==> e == StoreError::NotFound && *final(self) == *old(self),
            done is Ok ==> {
                &&& final(self).same_but_tags(old(self))
                &&& final(self).tags().len() == old(self).tags().len()
                &&& forall|k: int|
                    0 <= k < old(self).tags().len() && k != tag_row(old(self).tags(), id)
                        ==> #[trigger] final(self).tags()[k] == old(self).tags()[k]
                &&& final(self).tag(id).id == id
                &&& final(self).tag(id).board_id == old(self).tag(id).board_id
                &&& final(self).tag(id).owner_id == old(self).tag(id).owner_id
                &&& final(self).tag(id).name@ == (match name {
                    Some(n) => n@,
                    None => old(self).tag(id).name@,
                })
                &&& final(self).tag(id).color@ == (match color {
                    Some(c) => c@,
                    None => old(self).tag(id).color@,
                })
            },
    {
        let k = match self.find_tag_row(id) {
            None => {
                return Err(StoreError::NotFound);
            },
            Some(k) => k,
        };
        let ghost before = *self;
        match name {
            Some(n) => {
                self.tags[k].name = n.to_owned();
            },
            None => {},
        }
        match color {
            Some(c) => {
                self.tags[k].color = c.to_owned();
            },
            None => {},
        }
        proof {
            reveal(tags_ok);
            let after = *self;
            assert forall|i: int, j: int| 0 <= i < j < after.tags().len() implies (
            #[trigger] after.tags()[i]).id != (#[trigger] after.tags()[j]).id by {
                assert(before.tags()[i].id != before.tags()[j].id);
            }
            assert forall|i: int| 0 <= i < after.tags().len() implies (
            #[trigger] after.tags()[i]).scoped() by {
                assert(before.tags()[i].scoped());
            }
            assert(after.wf());
            lemma_tag_row(&after, k as int);
        }
        Ok(())
    }

    /// Whether `card` carries `tag`.
    pub fn has_card_tag(&self, card: Id, tag: Id) -> (found: bool)
        ensures
            found == tagged(self.card_tags(), card, tag),
    {
        let mut i: usize = 0;
        while i < self.card_tags.len()
            invariant
                i <= self.card_tags.len(),
                forall|k: int|
                    0 <= k < i ==> self.card_tags@[k] != (CardTag { card_id: card, tag_id: tag }),
            decreases self.card_tags.len() - i,
        {
            if self.card_tags[i].card_id == card && self.card_tags[i].tag_id == tag {
                return true;
            }
            i += 1;
        }
        false
    }

    /// Puts `tag` on `card`. A card that carries the tag already is left as it is.
    pub fn add_tag_to_card(&mut self, card: Id, tag: Id) -> (done: Result<(), StoreError>)
        requires
            old(self).wf(),
        ensures
            final(self).wf(),
            done is Ok <==> old(self).cards().has(card) && has_tag(old(self).tags(), tag),
            done matches Err(e) ==> e == StoreError::NotFound && *final(self) == *old(self),
            done is Ok ==> final(self).tag_put_on(old(self), card, tag),
    {
        if !self.cards.contains(card) || self.find_tag_row(tag).is_none() {
            return Err(StoreError::NotFound);
        }
        if !self.has_card_tag(card, tag) {
            self.card_tags.push(CardTag { card_id: card, tag_id: tag });
        }
        Ok(())
    }

    /// Takes `tag` off `card`.
    pub fn remove_tag_from_card(&mut self, card: Id, tag: Id) -> (done: Result<(), StoreError>)
        requires
            old(self).wf(),
        ensures
            final(self).wf(),
            done is Ok <==> tagged(old(self).card_tags(), card, tag),
            done matches Err(e) ==> e == StoreError::NotFound && *final(self) == *old(self),
            done is Ok ==> {
                &&& final(self).same_but_card_tags(old(self))
                &&& final(self).card_tags() == old(self).card_tags().filter(
                    |ct: CardTag| ct != (CardTag { card_id: card, tag_id: tag }),
                )
            },
    {
        if !self.has_card_tag(card, tag) {
            return Err(StoreError::NotFound);
        }
        let ghost pred = |ct: CardTag| ct != (CardTag { card_id: card, tag_id: tag });
        let mut keep: Vec<bool> = Vec::new();
        let mut i: usize = 0;
        while i < self.card_tags.len()
            invariant
                i <= self.card_tags.len(),
                keep.len() == i,
                forall|k: int|
                    0 <= k < i ==> keep[k] == ((#[trigger] self.card_tags@[k]) != (CardTag {
                        card_id: card,
                        tag_id: tag,
                    })),
            decreases self.card_tags.len() - i,
        {
            keep.push(!(self.card_tags[i].card_id == card && self.card_tags[i].tag_id == tag));
            i += 1;
        }
        proof {
            lemma_filter_distinct(self.card_tags@, pred);
        }
        retain_marked(&mut self.card_tags, &keep, Ghost(pred));
        Ok(())
    }

    /// Takes every tag off `card`.
    pub(crate) fn drop_card_tags_of_card(&mut self, card: Id)
        requires
            old(self).wf(),
        ensures
            final(self).wf(),
            final(self).same_but_card_tags(old(self)),
            final(self).card_tags() == old(self).card_tags().filter(
                |ct: CardTag| ct.card_id != card,
            ),
    {
        let ghost pred = |ct: CardTag| ct.card_id != card;
        let mut keep: Vec<bool> = Vec::new();
        let mut i: usize = 0;
        while i < self.card_tags.len()
            invariant
                i <= self.card_tags.len(),
                keep.len() == i,
                forall|k: int|
                    0 <= k < i ==> keep[k] == ((#[trigger] self.card_tags@[k]).card_id != card),
            decreases self.card_tags.len() - i,
        {
            keep.push(self.card_tags[i].card_id != card);
            i += 1;
        }
        proof {
            lemma_filter_distinct(self.card_tags@, pred);
        }
        retain_marked(&mut self.card_tags, &keep, Ghost(pred));
    }

    /// Deletes tag `id` and takes it off every card.
    pub fn delete_tag(&mut self, id: Id) -> (done: Result<(), StoreError>)
        requires
            old(self).wf(),
        ensures
            final(self).wf(),
            done is Ok <==> has_tag(old(self).tags(), id),
            done matches Err(e) ==> e == StoreError::NotFound && *final(self) == *old(self),
            done is Ok ==> final(self).tag_deleted(old(self), id),
    {
        let k = match self.find_tag_row(id) {
            None => {
                return Err(StoreError::NotFound);
            },
            Some(k) => k,
        };
        let ghost before = *self;
        self.tags.remove(k);
        let ghost pred = |ct: CardTag| ct.tag_id != id;
        let mut keep: Vec<bool> = Vec::new();
        let mut i: usize = 0;
        while i < self.card_tags.len()
            invariant
                i <= self.card_tags.len(),
                keep.len() == i,
                forall|j: int|
                    0 <= j < i ==> keep[j] == ((#[trigger] self.card_tags@[j]).tag_id != id),
            decreases self.card_tags.len() - i,
        {
            keep.push(self.card_tags[i].tag_id != id);
            i += 1;
        }
        proof {
            lemma_filter_distinct(self.card_tags@, pred);
        }
        retain_marked(&mut self.card_tags, &keep, Ghost(pred));
        proof {
            reveal(tags_ok);
            let after = *self;
            assert forall|i: int, j: int| 0 <= i < j < after.tags().len() implies (
            #[trigger] after.tags()[i]).id != (#[trigger] after.tags()[j]).id by {
                let i0: int = if i < k { i } else { i + 1 };
                let j0: int = if j < k { j } else { j + 1 };
                assert(before.tags()[i0].id != before.tags()[j0].id);
            }
            assert forall|i: int| 0 <= i < after.tags().len() implies (
            #[trigger] after.tags()[i]).scoped() by {
                let i0: int = if i < k { i } else { i + 1 };
                assert(before.tags()[i0].scoped());
            }
        }
        Ok(())
    }
}

} // verus!
