//! Deleting a board with everything on it.
use crate::models::board::{Board, BoardPermission, BoardRole};
use crate::models::tag::{CardTag, Tag};
use crate::position::{Container, Id};
use crate::store::boards::{lemma_board_row, lemma_role_row};
use crate::store::deleting::{lemma_lanes_after_purge, vec_has};
use crate::store::sieve::{
    lemma_filter_agree, lemma_filter_distinct, lemma_filter_order, lemma_filter_source,
    lemma_filter_target, retain_marked,
};
use crate::store::table::Keyed;
use crate::store::{
    attached_somewhere, board_row, boards_ok, grants, has_board, has_tag, role_in, tags_ok, Store,
    StoreError,
};
use vstd::prelude::*;

verus! {

/// The roles on other boards are what they were once the roles on `gone` are
/// taken away, and on `gone` no role is left.
pub proof fn lemma_roles_without_board(perms: Seq<BoardPermission>, gone: Id, board: Id, user: Id)
    requires
        forall|i: int, j: int|
            0 <= i < j < perms.len() ==> !((#[trigger] perms[i]).board_id == (
            #[trigger] perms[j]).board_id && perms[i].user_id == perms[j].user_id),
    ensures
        role_in(perms.filter(|p: BoardPermission| p.board_id != gone), board, user) == if board
            == gone {
            None
        } else {
            role_in(perms, board, user)
        },
{
    let keep = |p: BoardPermission| p.board_id != gone;
    let left = perms.filter(keep);
    if exists|k: int| grants(left, k, board, user) {
        let k: int = choose|k: int| grants(left, k, board, user);
        let k0: int = lemma_filter_source(perms, keep, k);
        assert(grants(perms, k0, board, user));
        let c: int = choose|c: int| grants(perms, c, board, user);
        if c < k0 {
            assert(!(perms[c].board_id == perms[k0].board_id && perms[c].user_id
                == perms[k0].user_id));
        } else if k0 < c {
            assert(!(perms[k0].board_id == perms[c].board_id && perms[k0].user_id
                == perms[c].user_id));
        }
    } else {
        if board != gone && exists|c: int| grants(perms, c, board, user) {
            let c: int = choose|c: int| grants(perms, c, board, user);
            let k: int = lemma_filter_target(perms, keep, c);
            assert(grants(left, k, board, user));
        }
    }
}

impl Store {
    /// What `delete_board` answers.
    pub open spec fn delete_board_verdict(&self, id: Id) -> Result<(), StoreError> {
        if !has_board(self.boards(), id) {
            Err(StoreError::NotFound)
        } else if self.cards().rows().len() > i32::MAX {
            Err(StoreError::Full)
        } else {
            Ok(())
        }
    }

    /// The card stands in one of `columns`.
    pub open spec fn stands_in(&self, card: Id, columns: Seq<Id>) -> bool {
        self.cards().slot(card).container matches Container::Column(col) && columns.contains(col)
    }

    /// The cards after the columns `columns` have been emptied: a card of one of
    /// them that is attached to a board stays, without a column, in the inbox of
    /// its creator; the other cards of these columns are gone; every other card is
    /// where it was.
    pub open spec fn columns_emptied(&self, before: &Store, columns: Seq<Id>) -> bool {
        let was = before.cards();
        let now = self.cards();
        &&& forall|c: Id| #[trigger]
            now.has(c) <==> was.has(c) && (!before.stands_in(c, columns) || attached_somewhere(
                self.assignments(),
                c,
            ))
        &&& forall|c: Id| now.has(c) ==> #[trigger] now.get(c) == was.get(c)
        &&& forall|c: Id|
            now.has(c) && !before.stands_in(c, columns) ==> #[trigger] now.slot(c) == was.slot(c)
        &&& forall|c: Id|
            now.has(c) && before.stands_in(c, columns) ==> (#[trigger] now.slot(c)).container
                == Container::Inbox(was.get(c).created_by)
        &&& forall|d: Container|
            d !is Inbox ==> #[trigger] now.order(d) == if d matches Container::Column(col)
                && columns.contains(col) {
                Seq::<Id>::empty()
            } else {
                was.order(d)
            }
    }

    /// This store is `before` without the board `id` and what was on it: the roles
    /// on it, its tags, which are off every card, its columns, the attachments to
    /// it, and the cards of its columns with their tags. A card of the board that
    /// is attached to another board has stayed, without a column.
    pub open spec fn board_deleted(&self, before: &Store, id: Id) -> bool {
        &&& self.boards() == before.boards().remove(board_row(before.boards(), id))
        &&& self.permissions() == before.permissions().filter(
            |p: BoardPermission| p.board_id != id,
        )
        &&& self.tags() == before.tags().filter(|t: Tag| t.board_id != Some(id))
        &&& self.columns().cleared(&before.columns(), Container::Board(id))
        &&& self.assignments().purged(
            &before.assignments(),
            |a: Id| before.assignments().get(a).board_id != id,
        )
        &&& self.columns_emptied(before, before.columns().order(Container::Board(id)))
        &&& self.card_tags() == before.card_tags().filter(
            |ct: CardTag|
                !(before.cards().has(ct.card_id) && !self.cards().has(ct.card_id)) && !(has_tag(
                    before.tags(),
                    ct.tag_id,
                ) && before.tag(ct.tag_id).board_id == Some(id)),
        )
    }

    /// The attachments to `board`.
    pub(crate) fn attachments_to_board(&self, board: Id) -> (ids: Vec<Id>)
        requires
            self.wf(),
        ensures
            forall|a: Id|
                self.assignments().has(a) ==> (#[trigger] ids@.contains(a) <==> self.assignments().get(
                    a,
                ).board_id == board),
    {
        let mut ids: Vec<Id> = Vec::new();
        let mut i: usize = 0;
        while i < self.assignments.len()
            invariant
                self.wf(),
                i <= self.assignments().rows().len(),
                forall|a: Id| #[trigger]
                    ids@.contains(a) <==> exists|k: int|
                        0 <= k < i && (#[trigger] self.assignments().rows()[k]).id == a
                            && self.assignments().rows()[k].board_id == board,
            decreases self.assignments().rows().len() - i,
        {
            let ghost prev = ids@;
            let row = self.assignments.row(i);
            if row.board_id == board {
                ids.push(row.id);
                proof {
                    assert forall|a: Id| #[trigger] ids@.contains(a) <==> prev.contains(a) || a
                        == row.id by {
                        if prev.contains(a) {
                            let j: int = prev.index_of(a);
                            assert(ids@[j] == a);
                        }
                        if a == row.id {
                            assert(ids@[prev.len() as int] == a);
                        }
                    }
                }
            }
            proof {
                assert forall|a: Id| #[trigger]
                    ids@.contains(a) <==> exists|k: int|
                        0 <= k < i + 1 && (#[trigger] self.assignments().rows()[k]).id == a
                            && self.assignments().rows()[k].board_id == board by {
                    if ids@.contains(a) {
                        if prev.contains(a) {
                            let k: int = choose|k: int|
                                0 <= k < i && (#[trigger] self.assignments().rows()[k]).id == a
                                    && self.assignments().rows()[k].board_id == board;
                            assert(0 <= k < i + 1 && self.assignments().rows()[k].id == a);
                        } else {
                            assert(self.assignments().rows()[i as int].id == a);
                        }
                    }
                    if exists|k: int|
                        0 <= k < i + 1 && (#[trigger] self.assignments().rows()[k]).id == a
                            && self.assignments().rows()[k].board_id == board {
                        let k: int = choose|k: int|
                            0 <= k < i + 1 && (#[trigger] self.assignments().rows()[k]).id == a
                                && self.assignments().rows()[k].board_id == board;
                        if k < i {
                            assert(prev.contains(a));
                        }
                    }
                }
            }
            i += 1;
        }
        proof {
            assert forall|a: Id| self.assignments().has(a) implies (#[trigger] ids@.contains(a)
                <==> self.assignments().get(a).board_id == board) by {
                let j: int = self.assignments().row_of(a);
                self.assignments().lemma_row(j);
                if ids@.contains(a) {
                    let k: int = choose|k: int|
                        0 <= k < i && (#[trigger] self.assignments().rows()[k]).id == a
                            && self.assignments().rows()[k].board_id == board;
                    self.assignments().lemma_row(k);
                }
                if self.assignments().get(a).board_id == board {
                    assert(self.assignments().rows()[j].id == a);
                }
            }
        }
        ids
    }

    // Empties every column of `columns`: see `columns_emptied`. Says which cards
    // are gone.
    pub(crate) fn empty_columns(&mut self, columns: &Vec<Id>) -> (gone: Vec<Id>)
        requires
            old(self).wf(),
            old(self).cards().rows().len() <= i32::MAX,
            columns@.no_duplicates(),
        ensures
            final(self).wf(),
            final(self).same_but_cards(old(self)),
            final(self).columns_emptied(old(self), columns@),
            forall|c: Id| #[trigger]
                gone@.contains(c) <==> old(self).cards().has(c) && !final(self).cards().has(c),
    {
        let ghost before = *self;
        let ghost was = before.cards();
        let mut gone: Vec<Id> = Vec::new();
        let mut k: usize = columns.len();
        proof {
            assert(columns@.skip(k as int) =~= Seq::<Id>::empty());
        }
        while k > 0
            invariant
                self.wf(),
                before.wf(),
                was == before.cards(),
                columns@.no_duplicates(),
                self.same_but_cards(&before),
                self.cards().rows().len() <= was.rows().len(),
                was.rows().len() <= i32::MAX,
                k <= columns.len(),
                self.columns_emptied(&before, columns@.skip(k as int)),
                forall|c: Id| #[trigger] gone@.contains(c) <==> was.has(c) && !self.cards().has(c),
            decreases k,
        {
            let ghost mid = *self;
            let ghost prev = gone@;
            let ghost done = columns@.skip(k as int);
            k -= 1;
            let col = columns[k];
            let ghost home = Container::Column(col);
            let ghost next = columns@.skip(k as int);
            proof {
                assert(next =~= seq![col] + done);
                assert(!done.contains(col)) by {
                    if done.contains(col) {
                        let j: int = done.index_of(col);
                        assert(columns@[k + 1 + j] == col);
                    }
                }
                assert forall|x: Id| #[trigger] next.contains(x) <==> x == col || done.contains(
                    x,
                ) by {
                    if next.contains(x) {
                        let j: int = next.index_of(x);
                        if j > 0 {
                            assert(done[j - 1] == x);
                        }
                    }
                    if x == col {
                        assert(next[0] == x);
                    }
                    if done.contains(x) {
                        let j: int = done.index_of(x);
                        assert(next[j + 1] == x);
                    }
                }
            }
            let mut lost = self.empty_column(col);
            proof {
                let now = self.cards();
                let then = mid.cards();
                assert forall|c: Id| then.has(c) implies (then.slot(c).container == home
                    <==> was.slot(c).container == home) by {
                    if before.stands_in(c, done) {
                        assert(then.slot(c).container == Container::Inbox(was.get(c).created_by));
                    } else {
                        assert(then.slot(c) == was.slot(c));
                    }
                }
                assert forall|c: Id| #[trigger]
                    now.has(c) <==> was.has(c) && (!before.stands_in(c, next)
                        || attached_somewhere(self.assignments(), c)) by {
                    if now.has(c) {
                        assert(then.has(c));
                    }
                    if was.has(c) && (!before.stands_in(c, next) || attached_somewhere(
                        self.assignments(),
                        c,
                    )) {
                        assert(then.has(c));
                    }
                }
                assert forall|c: Id| now.has(c) implies #[trigger] now.get(c) == was.get(c) by {
                    assert(then.get(c) == was.get(c));
                }
                assert forall|c: Id|
                    now.has(c) && !before.stands_in(c, next) implies #[trigger] now.slot(c)
                    == was.slot(c) by {
                    assert(then.slot(c) == was.slot(c));
                }
                assert forall|c: Id| now.has(c) && before.stands_in(c, next) implies (
                #[trigger] now.slot(c)).container == Container::Inbox(was.get(c).created_by) by {
                    assert(then.get(c) == was.get(c));
                    if before.stands_in(c, done) {
                        assert(then.slot(c).container == Container::Inbox(was.get(c).created_by));
                    }
                }
                assert forall|d: Container| d !is Inbox implies #[trigger] now.order(d) == if d matches Container::Column(
                    x,
                ) && next.contains(x) {
                    Seq::<Id>::empty()
                } else {
                    was.order(d)
                } by {
                    if d != home {
                        assert(now.order(d) == then.order(d));
                    }
                }
            }
            let ghost extra = lost@;
            gone.append(&mut lost);
            proof {
                let now = self.cards();
                let then = mid.cards();
                assert(gone@ =~= prev + extra);
                assert forall|c: Id| #[trigger] gone@.contains(c) <==> was.has(c) && !now.has(
                    c,
                ) by {
                    if gone@.contains(c) {
                        let j: int = gone@.index_of(c);
                        if j < prev.len() {
                            assert(prev[j] == c);
                            assert(prev.contains(c));
                            assert(!then.has(c));
                        } else {
                            assert(extra[j - prev.len()] == c);
                            assert(extra.contains(c));
                            assert(then.has(c) && !now.has(c));
                            assert(was.has(c));
                        }
                    }
                    if was.has(c) && !now.has(c) {
                        if then.has(c) {
                            assert(extra.contains(c));
                            let j: int = extra.index_of(c);
                            assert(gone@[prev.len() + j] == c);
                        } else {
                            assert(prev.contains(c));
                            let j: int = prev.index_of(c);
                            assert(gone@[j] == c);
                        }
                    }
                }
            }
        }
        proof {
            assert(columns@.skip(0) =~= columns@);
        }
        gone
    }

    /// Deletes a board with what is on it: the roles on it, its tags, its columns,
    /// the attachments to it, and the cards of its columns. A card of the board
    /// that is attached to another board stays, without a column.
    pub fn delete_board(&mut self, id: Id) -> (done: Result<(), StoreError>)
        requires
            old(self).wf(),
        ensures
            final(self).wf(),
            done is Ok <==> old(self).delete_board_verdict(id) is Ok,
            done matches Err(e) ==> old(self).delete_board_verdict(id) == Err::<(), StoreError>(e)
                && *final(self) == *old(self),
            done is Ok ==> final(self).board_deleted(old(self), id),
    {
        let row = match self.find_board_row(id) {
            None => {
                return Err(StoreError::NotFound);
            },
            Some(row) => row,
        };
        if self.cards.len() > i32::MAX as usize {
            return Err(StoreError::Full);
        }
        let ghost before = *self;
        let doomed = self.attachments_to_board(id);
        self.assignments.purge(&doomed);
        proof {
            self.assignments().lemma_purged_agree(
                &before.assignments(),
                |a: Id| !doomed@.contains(a),
                |a: Id| before.assignments().get(a).board_id != id,
            );
            lemma_lanes_after_purge(self.assignments(), before.assignments());
        }
        let columns = self.columns.list(Container::Board(id));
        proof {
            self.columns().lemma_order(Container::Board(id));
        }
        let gone = self.empty_columns(&columns);
        self.columns.clear(Container::Board(id));
        // The tags of the board, and what cards carried of them and of the cards
        // that are gone.
        let ghost keep_tag = |t: Tag| t.board_id != Some(id);
        let mut dead_tags: Vec<Id> = Vec::new();
        let mut keep: Vec<bool> = Vec::new();
        let mut i: usize = 0;
        while i < self.tags.len()
            invariant
                i <= self.tags.len(),
                keep.len() == i,
                forall|k: int|
                    0 <= k < i ==> keep[k] == ((#[trigger] self.tags@[k]).board_id != Some(id)),
                forall|t: Id| #[trigger]
                    dead_tags@.contains(t) <==> exists|k: int|
                        0 <= k < i && (#[trigger] self.tags@[k]).id == t && self.tags@[k].board_id
                            == Some(id),
            decreases self.tags.len() - i,
        {
            let ghost prev = dead_tags@;
            let mine = match self.tags[i].board_id {
                Some(b) => b == id,
                None => false,
            };
            if mine {
                dead_tags.push(self.tags[i].id);
                proof {
                    assert forall|t: Id| #[trigger] dead_tags@.contains(t) <==> prev.contains(t)
                        || t == self.tags@[i as int].id by {
                        if prev.contains(t) {
                            let j: int = prev.index_of(t);
                            assert(dead_tags@[j] == t);
                        }
                        if t == self.tags@[i as int].id {
                            assert(dead_tags@[prev.len() as int] == t);
                        }
                    }
                }
            }
            keep.push(!mine);
            proof {
                assert forall|t: Id| #[trigger]
                    dead_tags@.contains(t) <==> exists|k: int|
                        0 <= k < i + 1 && (#[trigger] self.tags@[k]).id == t
                            && self.tags@[k].board_id == Some(id) by {
                    if dead_tags@.contains(t) {
                        if prev.contains(t) {
                            let k: int = choose|k: int|
                                0 <= k < i && (#[trigger] self.tags@[k]).id == t
                                    && self.tags@[k].board_id == Some(id);
                            assert(0 <= k < i + 1 && self.tags@[k].id == t);
                        } else {
                            assert(self.tags@[i as int].id == t);
                        }
                    }
                    if exists|k: int|
                        0 <= k < i + 1 && (#[trigger] self.tags@[k]).id == t
                            && self.tags@[k].board_id == Some(id) {
                        let k: int = choose|k: int|
                            0 <= k < i + 1 && (#[trigger] self.tags@[k]).id == t
                                && self.tags@[k].board_id == Some(id);
                        if k < i {
                            assert(prev.contains(t));
                        }
                    }
                }
            }
            i += 1;
        }
        retain_marked(&mut self.tags, &keep, Ghost(keep_tag));
        let ghost keep_link = |ct: CardTag|
            !gone@.contains(ct.card_id) && !dead_tags@.contains(ct.tag_id);
        let mut keep: Vec<bool> = Vec::new();
        let mut i: usize = 0;
        while i < self.card_tags.len()
            invariant
                i <= self.card_tags.len(),
                keep.len() == i,
                forall|k: int|
                    0 <= k < i ==> keep[k] == (!gone@.contains(
                        (#[trigger] self.card_tags@[k]).card_id,
                    ) && !dead_tags@.contains(self.card_tags@[k].tag_id)),
            decreases self.card_tags.len() - i,
        {
            let link = self.card_tags[i];
            keep.push(!vec_has(&gone, link.card_id) && !vec_has(&dead_tags, link.tag_id));
            i += 1;
        }
        proof {
            lemma_filter_distinct(self.card_tags@, keep_link);
        }
        retain_marked(&mut self.card_tags, &keep, Ghost(keep_link));
        // The roles on the board, and the board.
        let ghost keep_role = |p: BoardPermission| p.board_id != id;
        let mut keep: Vec<bool> = Vec::new();
        let mut i: usize = 0;
        while i < self.permissions.len()
            invariant
                i <= self.permissions.len(),
                keep.len() == i,
                forall|k: int|
                    0 <= k < i ==> keep[k] == ((#[trigger] self.permissions@[k]).board_id != id),
            decreases self.permissions.len() - i,
        {
            keep.push(self.permissions[i].board_id != id);
            i += 1;
        }
        retain_marked(&mut self.permissions, &keep, Ghost(keep_role));
        self.boards.remove(row);
        proof {
            let after = *self;
            // Tags.
            reveal(tags_ok);
            assert(tags_ok(after.tags())) by {
                assert forall|a: int, b: int| 0 <= a < b < after.tags().len() implies (
                #[trigger] after.tags()[a]).id != (#[trigger] after.tags()[b]).id by {
                    let from = lemma_filter_order(before.tags(), keep_tag, a, b);
                    assert(before.tags()[from.0].id != before.tags()[from.1].id);
                }
                assert forall|k: int| 0 <= k < after.tags().len() implies (
                #[trigger] after.tags()[k]).scoped() by {
                    let k0: int = lemma_filter_source(before.tags(), keep_tag, k);
                    assert(before.tags()[k0].scoped());
                }
            }
            // What cards carry.
            assert forall|k: int| 0 <= k < before.card_tags().len() implies keep_link(
                #[trigger] before.card_tags()[k],
            ) == (!(before.cards().has(before.card_tags()[k].card_id) && !after.cards().has(
                before.card_tags()[k].card_id,
            )) && !(has_tag(before.tags(), before.card_tags()[k].tag_id) && before.tag(
                before.card_tags()[k].tag_id,
            ).board_id == Some(id))) by {
                let t = before.card_tags()[k].tag_id;
                if dead_tags@.contains(t) {
                    let j: int = choose|j: int|
                        0 <= j < before.tags().len() && (#[trigger] before.tags()[j]).id == t
                            && before.tags()[j].board_id == Some(id);
                    crate::store::tags::lemma_tag_row(&before, j);
                }
                if has_tag(before.tags(), t) && before.tag(t).board_id == Some(id) {
                    let j: int = crate::store::tag_row(before.tags(), t);
                    assert(before.tags()[j].id == t);
                }
            }
            lemma_filter_agree(
                before.card_tags(),
                keep_link,
                |ct: CardTag|
                    !(before.cards().has(ct.card_id) && !after.cards().has(ct.card_id)) && !(
                    has_tag(before.tags(), ct.tag_id) && before.tag(ct.tag_id).board_id == Some(
                        id,
                    )),
            );
            // Boards and roles.
            reveal(boards_ok);
            let boards = before.boards();
            let perms = before.permissions();
            let up = |j: int| if j < row { j } else { j + 1 };
            assert forall|j: int| 0 <= j < after.boards().len() implies #[trigger] after.boards()[j]
                == boards[up(j)] by {}
            assert forall|a: int, b: int| 0 <= a < b < after.boards().len() implies (
            #[trigger] after.boards()[a]).id != (#[trigger] after.boards()[b]).id by {
                assert(boards[up(a)].id != boards[up(b)].id);
            }
            assert forall|b: Id| b != id && has_board(boards, b) implies has_board(
                after.boards(),
                b,
            ) && after.boards()[board_row(after.boards(), b)] == boards[board_row(boards, b)] by {
                let j0: int = board_row(boards, b);
                let j: int = if j0 < row { j0 } else { j0 - 1 };
                assert(after.boards()[j] == boards[up(j)]);
                assert(after.boards()[j].id == b);
                let c: int = board_row(after.boards(), b);
                if c < j {
                    assert(after.boards()[c].id != after.boards()[j].id);
                } else if j < c {
                    assert(after.boards()[j].id != after.boards()[c].id);
                }
            }
            assert forall|a: int, b: int| 0 <= a < b < after.permissions().len() implies !((
            #[trigger] after.permissions()[a]).board_id == (
            #[trigger] after.permissions()[b]).board_id && after.permissions()[a].user_id
                == after.permissions()[b].user_id) by {
                let from = lemma_filter_order(perms, keep_role, a, b);
                assert(!(perms[from.0].board_id == perms[from.1].board_id && perms[from.0].user_id
                    == perms[from.1].user_id));
            }
            assert forall|k: int| 0 <= k < after.permissions().len() implies {
                &&& has_board(after.boards(), (#[trigger] after.permissions()[k]).board_id)
                &&& (after.permissions()[k].role == BoardRole::Owner <==> after.boards()[board_row(
                    after.boards(),
                    after.permissions()[k].board_id,
                )].owner_id == after.permissions()[k].user_id)
            } by {
                let k0: int = lemma_filter_source(perms, keep_role, k);
                assert(has_board(boards, perms[k0].board_id));
            }
            assert forall|k: int| 0 <= k < after.boards().len() implies role_in(
                after.permissions(),
                (#[trigger] after.boards()[k]).id,
                after.boards()[k].owner_id,
            ) == Some(BoardRole::Owner) by {
                let b = after.boards()[k].id;
                lemma_roles_without_board(perms, id, b, after.boards()[k].owner_id);
                assert(boards[up(k)].id != boards[row as int].id) by {
                    if up(k) < row {
                        assert(boards[up(k)].id != boards[row as int].id);
                    } else {
                        assert(boards[row as int].id != boards[up(k)].id);
                    }
                }
                assert(role_in(perms, boards[up(k)].id, boards[up(k)].owner_id) == Some(
                    BoardRole::Owner,
                ));
            }
            assert(boards_ok(after.boards(), after.permissions()));
            // The columns of the board were the ones on its order.
            assert(after.columns_emptied(&before, before.columns().order(Container::Board(id))));
        }
        Ok(())
    }
}

} // verus!
