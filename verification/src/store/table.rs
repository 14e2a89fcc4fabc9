//! A table of records, each with an identifier and a place in an ordered container.
use crate::position::{
    law_positions_dense, moved, pulled_up, pushed_back, Container, Id, PositionError,
    PositionStore, Slot,
};
use crate::store::sieve::{lemma_filter_agree, lemma_filter_all, lemma_filter_twice, lemma_remove_is_filter};
use vstd::prelude::*;

verus! {

/// A record that a table can hold.
pub trait Keyed {
    /// The identifier of the record.
    spec fn key(&self) -> Id;

    /// Whether the record may stand in `c`.
    spec fn fits(&self, c: Container) -> bool;

    /// The identifier of the record.
    fn id(&self) -> (id: Id)
        ensures
            id == self.key(),
    ;
}

/// Records by identifier, and where each stands.
pub struct Table<T> {
    rows: Vec<T>,
    places: PositionStore,
}

impl<T: Keyed> Table<T> {
    /// The records, in no particular order.
    pub closed spec fn rows(&self) -> Seq<T> {
        self.rows@
    }

    /// Where each record stands.
    pub closed spec fn places(&self) -> PositionStore {
        self.places
    }

    /// There is a record `id`.
    pub open spec fn has(&self, id: Id) -> bool {
        exists|k: int| 0 <= k < self.rows().len() && #[trigger] self.rows()[k].key() == id
    }

    /// The row of record `id`, where there is one.
    pub open spec fn row_of(&self, id: Id) -> int {
        choose|k: int| 0 <= k < self.rows().len() && #[trigger] self.rows()[k].key() == id
    }

    /// The record `id`, where there is one.
    pub open spec fn get(&self, id: Id) -> T {
        self.rows()[self.row_of(id)]
    }

    /// The place of record `id`, where there is one.
    pub open spec fn slot(&self, id: Id) -> Slot {
        self.places().slot(id)
    }

    /// The records of `c`, by position.
    pub open spec fn order(&self, c: Container) -> Seq<Id> {
        self.places()@[c]
    }

    /// The table is valid when positions are dense, no two records share an
    /// identifier, and the placed items are the records, each where it fits.
    pub open spec fn wf(&self) -> bool {
        &&& self.places().wf()
        &&& self.places().size() == self.rows().len()
        &&& forall|i: int, j: int|
            0 <= i < j < self.rows().len() ==> (#[trigger] self.rows()[i]).key() != (
            #[trigger] self.rows()[j]).key()
        &&& forall|k: int|
            0 <= k < self.rows().len() ==> {
                &&& self.places().has((#[trigger] self.rows()[k]).key())
                &&& self.rows()[k].fits(self.places().slot(self.rows()[k].key()).container)
            }
        &&& forall|id: Id| #[trigger] self.places().has(id) ==> self.has(id)
    }

    /// This table is `before` with `row` added to `c` at position `p`.
    pub open spec fn inserted(&self, before: &Table<T>, row: T, c: Container, p: int) -> bool {
        &&& self.rows() == before.rows().push(row)
        &&& self.places()@ == before.places()@.insert(c, before.order(c).insert(p, row.key()))
        &&& self.slot(row.key()) == (Slot { item: row.key(), container: c, position: p as i32 })
        &&& self.get(row.key()) == row
        &&& forall|id: Id| #[trigger] self.has(id) <==> before.has(id) || id == row.key()
        &&& forall|id: Id| before.has(id) ==> #[trigger] self.get(id) == before.get(id)
        &&& forall|id: Id|
            before.has(id) ==> #[trigger] self.slot(id) == pushed_back(before.slot(id), c, p)
    }

    /// This table is `before` without the record `id`.
    pub open spec fn removed(&self, before: &Table<T>, id: Id) -> bool {
        &&& self.rows() == before.rows().remove(before.row_of(id))
        &&& self.places()@ == before.places()@.insert(
            before.slot(id).container,
            before.order(before.slot(id).container).remove(before.slot(id).position as int),
        )
        &&& forall|other: Id| #[trigger] self.has(other) <==> before.has(other) && other != id
        &&& forall|other: Id|
            before.has(other) && other != id ==> #[trigger] self.get(other) == before.get(other)
        &&& forall|other: Id|
            before.has(other) && other != id ==> #[trigger] self.slot(other) == pulled_up(
                before.slot(other),
                before.slot(id).container,
                before.slot(id).position as int,
            )
    }

    /// This table is `before` with the record `id` moved to position `p` of `dest`.
    pub open spec fn moved_to(&self, before: &Table<T>, id: Id, dest: Container, p: int) -> bool {
        &&& self.rows() == before.rows()
        &&& self.places()@ == moved(
            before.places()@,
            id,
            before.slot(id).container,
            before.slot(id).position as int,
            dest,
            p,
        )
        &&& self.slot(id) == (Slot { item: id, container: dest, position: p as i32 })
        &&& forall|other: Id|
            before.has(other) && other != id ==> #[trigger] self.slot(other) == pushed_back(
                pulled_up(
                    before.slot(other),
                    before.slot(id).container,
                    before.slot(id).position as int,
                ),
                dest,
                p,
            )
    }

    /// This table is `before` with `row` in the place of the record with its
    /// identifier.
    pub open spec fn replaced(&self, before: &Table<T>, row: T) -> bool {
        &&& self.rows() == before.rows().update(before.row_of(row.key()), row)
        &&& self.places() == before.places()
        &&& self.get(row.key()) == row
        &&& forall|other: Id| #[trigger] self.has(other) <==> before.has(other)
        &&& forall|other: Id|
            before.has(other) && other != row.key() ==> #[trigger] self.get(other) == before.get(
                other,
            )
    }

    /// This table is `before` without the records that stood in `c`.
    pub open spec fn cleared(&self, before: &Table<T>, c: Container) -> bool {
        &&& self.places()@ == before.places()@.insert(c, Seq::<Id>::empty())
        &&& forall|id: Id| #[trigger]
            self.has(id) <==> before.has(id) && before.slot(id).container != c
        &&& forall|id: Id| self.has(id) ==> #[trigger] self.get(id) == before.get(id)
        &&& forall|id: Id| self.has(id) ==> #[trigger] self.slot(id) == before.slot(id)
    }

    /// This table is `before` without the records that fail `keep`: they are gone
    /// from every order, and what stays is unchanged and in its old order.
    pub open spec fn purged(&self, before: &Table<T>, keep: spec_fn(Id) -> bool) -> bool {
        &&& forall|c: Container| #[trigger] self.order(c) == before.order(c).filter(keep)
        &&& forall|id: Id| #[trigger] self.has(id) <==> before.has(id) && keep(id)
        &&& forall|id: Id| self.has(id) ==> #[trigger] self.get(id) == before.get(id)
        &&& forall|id: Id|
            self.has(id) ==> (#[trigger] self.slot(id)).container == before.slot(id).container
    }

    /// No container holds more records than the table.
    pub proof fn lemma_size(&self, c: Container)
        requires
            self.wf(),
        ensures
            self.order(c).len() <= self.rows().len(),
    {
        self.places().lemma_size(c);
    }

    /// A row is the row of its identifier.
    pub proof fn lemma_row(&self, k: int)
        requires
            self.wf(),
            0 <= k < self.rows().len(),
        ensures
            self.has(self.rows()[k].key()),
            self.row_of(self.rows()[k].key()) == k,
            self.get(self.rows()[k].key()) == self.rows()[k],
    {
        let id = self.rows()[k].key();
        let j: int = self.row_of(id);
        if j < k {
            assert(self.rows()[j].key() != self.rows()[k].key());
        } else if k < j {
            assert(self.rows()[k].key() != self.rows()[j].key());
        }
    }

    /// In a valid table every record is placed where it fits, and the records on
    /// the order of a container are the records whose place is in it.
    pub proof fn lemma_placed(&self, id: Id)
        requires
            self.wf(),
            self.has(id),
        ensures
            self.get(id).key() == id,
            self.places().has(id),
            self.slot(id).item == id,
            self.get(id).fits(self.slot(id).container),
            0 <= self.slot(id).position < self.order(self.slot(id).container).len(),
            self.order(self.slot(id).container)[self.slot(id).position as int] == id,
    {
        let k: int = self.row_of(id);
        assert(self.places().has(self.rows()[k].key()));
        law_positions_dense(self.places(), self.slot(id).container);
    }

    /// In a valid table the order of a container holds records, each once, each
    /// placed in that container at the position where it is listed.
    pub proof fn lemma_order(&self, c: Container)
        requires
            self.wf(),
        ensures
            self.order(c).no_duplicates(),
            forall|p: int|
                0 <= p < self.order(c).len() ==> {
                    &&& self.has(#[trigger] self.order(c)[p])
                    &&& self.get(self.order(c)[p]).key() == self.order(c)[p]
                    &&& self.slot(self.order(c)[p]).container == c
                    &&& self.slot(self.order(c)[p]).position == p
                    &&& self.get(self.order(c)[p]).fits(c)
                },
    {
        law_positions_dense(self.places(), c);
        assert forall|p: int| 0 <= p < self.order(c).len() implies {
            &&& self.has(#[trigger] self.order(c)[p])
            &&& self.get(self.order(c)[p]).key() == self.order(c)[p]
            &&& self.slot(self.order(c)[p]).container == c
            &&& self.slot(self.order(c)[p]).position == p
            &&& self.get(self.order(c)[p]).fits(c)
        } by {
            let id = self.order(c)[p];
            assert(self.places().has(id));
            assert(self.has(id));
            self.lemma_placed(id);
        }
    }

    /// An empty table.
    pub fn new() -> (table: Table<T>)
        ensures
            table.wf(),
            table.rows() == Seq::<T>::empty(),
            forall|c: Container| #[trigger] table.order(c) == Seq::<Id>::empty(),
            forall|id: Id| !#[trigger] table.has(id),
    {
        Table { rows: Vec::new(), places: PositionStore::new() }
    }

    fn find_row(&self, id: Id) -> (found: Option<usize>)
        requires
            self.wf(),
        ensures
            match found {
                Some(k) => k < self.rows().len() && self.rows()[k as int].key() == id && self.has(
                    id,
                ) && self.row_of(id) == k,
                None => !self.has(id),
            },
    {
        let mut i: usize = 0;
        while i < self.rows.len()
            invariant
                self.wf(),
                i <= self.rows.len(),
                forall|k: int| 0 <= k < i ==> (#[trigger] self.rows@[k]).key() != id,
            decreases self.rows.len() - i,
        {
            if self.rows[i].id() == id {
                proof {
                    self.lemma_row(i as int);
                }
                return Some(i);
            }
            i += 1;
        }
        None
    }

    /// How many records the table holds.
    pub fn len(&self) -> (n: usize)
        ensures
            n == self.rows().len(),
    {
        self.rows.len()
    }

    /// The record in row `k`.
    pub fn row(&self, k: usize) -> (r: &T)
        requires
            k < self.rows().len(),
        ensures
            *r == self.rows()[k as int],
    {
        &self.rows[k]
    }

    /// Whether there is a record `id`.
    pub fn contains(&self, id: Id) -> (found: bool)
        requires
            self.wf(),
        ensures
            found == self.has(id),
    {
        self.find_row(id).is_some()
    }

    /// The record `id`.
    pub fn find(&self, id: Id) -> (found: Option<&T>)
        requires
            self.wf(),
        ensures
            found is Some <==> self.has(id),
            found matches Some(r) ==> *r == self.get(id) && r.key() == id,
    {
        match self.find_row(id) {
            Some(k) => Some(&self.rows[k]),
            None => None,
        }
    }

    /// Where record `id` stands.
    pub fn place(&self, id: Id) -> (found: Option<Slot>)
        requires
            self.wf(),
        ensures
            found is Some <==> self.has(id),
            found matches Some(s) ==> {
                &&& s == self.slot(id)
                &&& s.item == id
                &&& self.get(id).fits(s.container)
                &&& 0 <= s.position < self.order(s.container).len()
                &&& self.order(s.container)[s.position as int] == id
            },
    {
        let found = self.places.position_of(id);
        proof {
            if self.has(id) {
                self.lemma_placed(id);
            }
        }
        found
    }

    /// The records of `c`, by position.
    pub fn list(&self, c: Container) -> (ids: Vec<Id>)
        requires
            self.wf(),
        ensures
            ids@ == self.order(c),
    {
        self.places.items(c)
    }

    /// How many records `c` holds.
    pub fn count(&self, c: Container) -> (n: usize)
        ensures
            n == self.order(c).len(),
    {
        self.places.count(c)
    }

    /// What `insert` answers for a record `id`.
    pub open spec fn insert_verdict(&self, id: Id, c: Container, desired: Option<i32>) -> Result<
        i32,
        PositionError,
    > {
        self.places().insert_verdict(c, id, desired)
    }

    /// What `move_to` answers.
    pub open spec fn move_verdict(&self, id: Id, dest: Container, desired: i32) -> Result<
        i32,
        PositionError,
    > {
        self.places().move_verdict(id, dest, desired)
    }

    /// Adds a record to `c`: at `desired`, after which the records at or behind that
    /// position stand one place further back, or at the end where no position is
    /// wanted.
    pub(crate) fn insert(&mut self, row: T, c: Container, desired: Option<i32>) -> (assigned: Result<
        i32,
        PositionError,
    >)
        requires
            old(self).wf(),
            row.fits(c),
        ensures
            final(self).wf(),
            assigned == old(self).insert_verdict(row.key(), c, desired),
            assigned is Err ==> *final(self) == *old(self),
            (assigned matches Err(e) && e == PositionError::DuplicateItem) <==> old(self).has(
                row.key(),
            ),
            assigned matches Ok(p) ==> final(self).inserted(old(self), row, c, p as int),
    {
        let ghost before = *self;
        let id = row.id();
        proof {
            if before.has(id) {
                before.lemma_placed(id);
            }
        }
        match self.places.insert(c, id, desired) {
            Err(e) => Err(e),
            Ok(p) => {
                self.rows.push(row);
                proof {
                    let after = *self;
                    assert forall|k: int| 0 <= k < after.rows().len() implies {
                        &&& after.places().has((#[trigger] after.rows()[k]).key())
                        &&& after.rows()[k].fits(
                            after.places().slot(after.rows()[k].key()).container,
                        )
                    } by {
                        if k < before.rows().len() {
                            before.lemma_row(k);
                            before.lemma_placed(before.rows()[k].key());
                        }
                    }
                    assert forall|id2: Id| #[trigger] after.places().has(id2) implies after.has(
                        id2,
                    ) by {
                        if id2 == id {
                            assert(after.rows()[before.rows().len() as int].key() == id2);
                        } else {
                            assert(before.has(id2));
                            let k: int = before.row_of(id2);
                            assert(after.rows()[k].key() == id2);
                        }
                    }
                    assert(after.wf());
                    after.lemma_row(before.rows().len() as int);
                    assert forall|id2: Id| before.has(id2) implies #[trigger] after.get(id2)
                        == before.get(id2) by {
                        let k: int = before.row_of(id2);
                        assert(after.rows()[k] == before.rows()[k]);
                        after.lemma_row(k);
                    }
                    assert forall|id2: Id| before.has(id2) implies #[trigger] after.slot(id2)
                        == pushed_back(before.slot(id2), c, p as int) by {
                        before.lemma_placed(id2);
                    }
                    assert forall|id2: Id| #[trigger]
                        after.has(id2) <==> before.has(id2) || id2 == id by {
                        if after.has(id2) && id2 != id {
                            let k: int = after.row_of(id2);
                            assert(before.rows()[k].key() == id2);
                        }
                        if before.has(id2) {
                            assert(after.rows()[before.row_of(id2)].key() == id2);
                        }
                    }
                }
                Ok(p)
            },
        }
    }

    /// Takes record `id` out; the records behind it in its container move one place
    /// forward.
    pub(crate) fn remove(&mut self, id: Id) -> (taken: Option<(T, Slot)>)
        requires
            old(self).wf(),
        ensures
            final(self).wf(),
            taken is Some <==> old(self).has(id),
            taken is None ==> *final(self) == *old(self),
            taken matches Some(pair) ==> {
                &&& pair.0 == old(self).get(id)
                &&& pair.1 == old(self).slot(id)
                &&& final(self).removed(old(self), id)
            },
    {
        let ghost before = *self;
        match self.find_row(id) {
            None => None,
            Some(k) => {
                proof {
                    before.lemma_placed(id);
                }
                let s = match self.places.remove(id) {
                    Ok(s) => s,
                    Err(_) => {
                        return None;
                    },
                };
                let row = self.rows.remove(k);
                proof {
                    let after = *self;
                    assert forall|j: int| 0 <= j < after.rows().len() implies #[trigger] after.rows()[j]
                        == before.rows()[if j < k { j } else { j + 1 }] by {}
                    assert forall|i: int, j: int| 0 <= i < j < after.rows().len() implies (
                    #[trigger] after.rows()[i]).key() != (#[trigger] after.rows()[j]).key() by {
                        let i0: int = if i < k { i } else { i + 1 };
                        let j0: int = if j < k { j } else { j + 1 };
                        assert(before.rows()[i0].key() != before.rows()[j0].key());
                    }
                    assert forall|j: int| 0 <= j < after.rows().len() implies {
                        &&& after.places().has((#[trigger] after.rows()[j]).key())
                        &&& after.rows()[j].fits(
                            after.places().slot(after.rows()[j].key()).container,
                        )
                    } by {
                        let j0: int = if j < k { j } else { j + 1 };
                        before.lemma_row(j0);
                        before.lemma_row(k as int);
                        before.lemma_placed(before.rows()[j0].key());
                    }
                    assert forall|other: Id| #[trigger]
                        after.has(other) <==> before.has(other) && other != id by {
                        if after.has(other) {
                            let j: int = after.row_of(other);
                            let j0: int = if j < k { j } else { j + 1 };
                            before.lemma_row(j0);
                            before.lemma_row(k as int);
                        }
                        if before.has(other) && other != id {
                            let j0: int = before.row_of(other);
                            let j: int = if j0 < k { j0 } else { j0 - 1 };
                            assert(after.rows()[j].key() == other);
                        }
                    }
                    assert forall|other: Id| #[trigger] after.places().has(other) implies after.has(
                        other,
                    ) by {}
                    assert(after.wf());
                    assert forall|other: Id|
                        before.has(other) && other != id implies #[trigger] after.get(other)
                        == before.get(other) by {
                        let j0: int = before.row_of(other);
                        let j: int = if j0 < k { j0 } else { j0 - 1 };
                        assert(after.rows()[j] == before.rows()[j0]);
                        after.lemma_row(j);
                    }
                    assert forall|other: Id|
                        before.has(other) && other != id implies #[trigger] after.slot(other)
                        == pulled_up(before.slot(other), s.container, s.position as int) by {
                        before.lemma_placed(other);
                    }
                }
                Some((row, s))
            },
        }
    }

    /// Moves record `id` to `desired` in `dest`, which may be the container it is
    /// in. Either all of the move happens or the table is left as it was.
    pub(crate) fn move_to(&mut self, id: Id, dest: Container, desired: i32) -> (landed: Result<
        i32,
        PositionError,
    >)
        requires
            old(self).wf(),
            old(self).has(id) ==> old(self).get(id).fits(dest),
        ensures
            final(self).wf(),
            landed == old(self).move_verdict(id, dest, desired),
            landed is Err ==> *final(self) == *old(self),
            (landed matches Err(e) && e == PositionError::UnknownItem) <==> !old(self).has(id),
            landed is Ok ==> final(self).moved_to(old(self), id, dest, desired as int),
    {
        let ghost before = *self;
        proof {
            if before.has(id) {
                before.lemma_placed(id);
            }
        }
        let landed = self.places.move_item(id, dest, desired);
        proof {
            let after = *self;
            if landed is Ok {
                assert forall|k: int| 0 <= k < after.rows().len() implies {
                    &&& after.places().has((#[trigger] after.rows()[k]).key())
                    &&& after.rows()[k].fits(after.places().slot(after.rows()[k].key()).container)
                } by {
                    before.lemma_row(k);
                    before.lemma_placed(before.rows()[k].key());
                }
                assert forall|other: Id| #[trigger] after.places().has(other) implies after.has(
                    other,
                ) by {
                    assert(before.has(other));
                }
                assert forall|other: Id| before.has(other) && other != id implies #[trigger] after.slot(
                    other,
                ) == pushed_back(
                    pulled_up(
                        before.slot(other),
                        before.slot(id).container,
                        before.slot(id).position as int,
                    ),
                    dest,
                    desired as int,
                ) by {
                    before.lemma_placed(other);
                }
            }
        }
        landed
    }

    /// Puts `row` in the place of the record with its identifier.
    pub(crate) fn replace(&mut self, row: T) -> (done: bool)
        requires
            old(self).wf(),
            old(self).has(row.key()) ==> row.fits(old(self).slot(row.key()).container),
        ensures
            final(self).wf(),
            done == old(self).has(row.key()),
            !done ==> *final(self) == *old(self),
            done ==> final(self).replaced(old(self), row),
    {
        let ghost before = *self;
        let id = row.id();
        match self.find_row(id) {
            None => false,
            Some(k) => {
                self.rows[k] = row;
                proof {
                    let after = *self;
                    assert forall|i: int, j: int| 0 <= i < j < after.rows().len() implies (
                    #[trigger] after.rows()[i]).key() != (#[trigger] after.rows()[j]).key() by {
                        assert(before.rows()[i].key() != before.rows()[j].key());
                    }
                    assert forall|j: int| 0 <= j < after.rows().len() implies {
                        &&& after.places().has((#[trigger] after.rows()[j]).key())
                        &&& after.rows()[j].fits(
                            after.places().slot(after.rows()[j].key()).container,
                        )
                    } by {
                        assert(before.places().has(before.rows()[j].key()));
                    }
                    assert forall|other: Id| #[trigger] after.has(other) <==> before.has(other) by {
                        if after.has(other) {
                            assert(before.rows()[after.row_of(other)].key() == other);
                        }
                        if before.has(other) {
                            assert(after.rows()[before.row_of(other)].key() == other);
                        }
                    }
                    assert(after.wf());
                    after.lemma_row(k as int);
                    assert forall|other: Id|
                        before.has(other) && other != id implies #[trigger] after.get(other)
                        == before.get(other) by {
                        let j: int = before.row_of(other);
                        assert(after.rows()[j] == before.rows()[j]);
                        after.lemma_row(j);
                    }
                }
                true
            },
        }
    }

    /// Takes out every record that stands in `c`, and says which they were.
    pub(crate) fn clear(&mut self, c: Container) -> (gone: Vec<Id>)
        requires
            old(self).wf(),
        ensures
            final(self).wf(),
            gone@ == old(self).order(c),
            final(self).cleared(old(self), c),
    {
        let ghost before = *self;
        let ids = self.list(c);
        let mut k: usize = ids.len();
        proof {
            assert(ids@.take(k as int) =~= ids@);
            assert(self.places()@ =~= before.places()@.insert(c, ids@.take(k as int)));
            assert forall|id: Id| #[trigger] self.has(id) implies !(before.slot(id).container == c
                && before.slot(id).position >= k) by {
                before.lemma_placed(id);
            }
        }
        while k > 0
            invariant
                self.wf(),
                before.wf(),
                k <= ids.len(),
                ids@ == before.order(c),
                self.places()@ == before.places()@.insert(c, ids@.take(k as int)),
                forall|id: Id| #[trigger]
                    self.has(id) <==> before.has(id) && !(before.slot(id).container == c
                        && before.slot(id).position >= k),
                forall|id: Id| self.has(id) ==> #[trigger] self.get(id) == before.get(id),
                forall|id: Id| self.has(id) ==> #[trigger] self.slot(id) == before.slot(id),
            decreases k,
        {
            let ghost mid = *self;
            k -= 1;
            let id = ids[k];
            proof {
                assert(mid.order(c) == ids@.take(k + 1));
                assert(mid.order(c)[k as int] == id);
                mid.lemma_order(c);
            }
            let taken = self.remove(id);
            proof {
                assert(ids@.take(k + 1).remove(k as int) =~= ids@.take(k as int));
                assert(self.places()@ =~= before.places()@.insert(c, ids@.take(k as int)));
                assert forall|other: Id| #[trigger] self.has(other) implies {
                    &&& self.get(other) == before.get(other)
                    &&& self.slot(other) == before.slot(other)
                    &&& !(before.slot(other).container == c && before.slot(other).position >= k)
                } by {
                    assert(mid.has(other));
                    mid.lemma_placed(other);
                    assert(mid.get(other) == before.get(other));
                    assert(mid.slot(other) == before.slot(other));
                    if mid.slot(other).container == c && mid.slot(other).position == k {
                        assert(mid.order(c)[k as int] == other);
                    }
                }
                assert forall|other: Id|
                    before.has(other) && !(before.slot(other).container == c && before.slot(
                        other,
                    ).position >= k) implies #[trigger] self.has(other) by {
                    assert(mid.has(other));
                    assert(mid.slot(other) == before.slot(other));
                }
            }
        }
        proof {
            assert(ids@.take(0) =~= Seq::<Id>::empty());
            assert forall|id: Id| #[trigger]
                self.has(id) <==> before.has(id) && before.slot(id).container != c by {
                if before.has(id) {
                    before.lemma_placed(id);
                }
            }
        }
        ids
    }

    /// Tests that agree on the records of `before` purge alike.
    pub proof fn lemma_purged_agree(
        &self,
        before: &Table<T>,
        keep: spec_fn(Id) -> bool,
        other: spec_fn(Id) -> bool,
    )
        requires
            before.wf(),
            self.purged(before, keep),
            forall|id: Id| before.has(id) ==> #[trigger] keep(id) == other(id),
        ensures
            self.purged(before, other),
    {
        assert forall|c: Container| #[trigger] self.order(c) == before.order(c).filter(other) by {
            before.lemma_order(c);
            assert forall|i: int| 0 <= i < before.order(c).len() implies keep(
                #[trigger] before.order(c)[i],
            ) == other(before.order(c)[i]) by {
                assert(before.has(before.order(c)[i]));
            }
            lemma_filter_agree(before.order(c), keep, other);
        }
    }

    /// Taking one record out purges it.
    pub proof fn lemma_removed_purged(&self, before: &Table<T>, id: Id, keep: spec_fn(Id) -> bool)
        requires
            before.wf(),
            before.has(id),
            self.removed(before, id),
            forall|x: Id| #[trigger] keep(x) == (x != id),
        ensures
            self.purged(before, keep),
    {
        before.lemma_placed(id);
        let home = before.slot(id).container;
        let p: int = before.slot(id).position as int;
        assert forall|c: Container| #[trigger] self.order(c) == before.order(c).filter(keep) by {
            before.lemma_order(c);
            if c == home {
                lemma_remove_is_filter(before.order(c), p, keep);
            } else {
                assert forall|i: int| 0 <= i < before.order(c).len() implies keep(
                    #[trigger] before.order(c)[i],
                ) by {
                    assert(before.slot(before.order(c)[i]).container == c);
                }
                lemma_filter_all(before.order(c), keep);
            }
        }
        assert forall|x: Id| self.has(x) implies (#[trigger] self.slot(x)).container
            == before.slot(x).container by {}
    }

    /// Takes out every record that `doomed` names, and only those.
    pub(crate) fn purge(&mut self, doomed: &Vec<Id>)
        requires
            old(self).wf(),
        ensures
            final(self).wf(),
            final(self).purged(old(self), |id: Id| !doomed@.contains(id)),
    {
        let ghost before = *self;
        let mut i: usize = 0;
        proof {
            let keep0 = |id: Id| !doomed@.take(0).contains(id);
            assert forall|c: Container| #[trigger] self.order(c) == before.order(c).filter(keep0) by {
                lemma_filter_all(before.order(c), keep0);
            }
        }
        while i < doomed.len()
            invariant
                self.wf(),
                before.wf(),
                i <= doomed.len(),
                self.purged(&before, |id: Id| !doomed@.take(i as int).contains(id)),
            decreases doomed.len() - i,
        {
            let ghost mid = *self;
            let ghost keep_i = |id: Id| !doomed@.take(i as int).contains(id);
            let ghost keep_n = |id: Id| !doomed@.take(i + 1).contains(id);
            let d = doomed[i];
            let ghost one = |id: Id| id != d;
            proof {
                assert(doomed@.take(i + 1) =~= doomed@.take(i as int).push(d));
                assert forall|x: Id| #[trigger] keep_n(x) == (keep_i(x) && one(x)) by {
                    if doomed@.take(i as int).contains(x) {
                        let j: int = doomed@.take(i as int).index_of(x);
                        assert(doomed@.take(i + 1)[j] == x);
                    }
                    if x == d {
                        assert(doomed@.take(i + 1)[i as int] == x);
                    }
                }
            }
            let taken = self.remove(d);
            proof {
                if taken is Some {
                    self.lemma_removed_purged(&mid, d, one);
                } else {
                    assert forall|c: Container| #[trigger] self.order(c) == mid.order(c).filter(
                        one,
                    ) by {
                        mid.lemma_order(c);
                        lemma_filter_all(mid.order(c), one);
                    }
                }
                assert forall|c: Container| #[trigger] self.order(c) == before.order(c).filter(
                    keep_n,
                ) by {
                    assert(mid.order(c) == before.order(c).filter(keep_i));
                    assert(self.order(c) == mid.order(c).filter(one));
                    lemma_filter_twice(before.order(c), keep_i, one, keep_n);
                }
                assert forall|id: Id| self.has(id) implies (#[trigger] self.slot(id)).container
                    == before.slot(id).container by {
                    assert(mid.has(id));
                    assert(mid.slot(id).container == before.slot(id).container);
                }
                assert forall|id: Id| self.has(id) implies #[trigger] self.get(id) == before.get(
                    id,
                ) by {
                    assert(mid.has(id));
                    assert(mid.get(id) == before.get(id));
                }
            }
            i += 1;
        }
        proof {
            assert(doomed@.take(i as int) =~= doomed@);
        }
    }
}

} // verus!
