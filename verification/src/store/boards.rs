//! Boards and the roles on them.
use crate::models::board::{Board, BoardPermission, BoardRole};
use crate::position::Id;
use crate::store::{board_row, boards_ok, grants, has_board, role_in, Store, StoreError};
use vstd::prelude::*;
use vstd::string::*;

verus! {

/// The boards that `user` holds a role on, each with the role, in the order of
/// `boards`.
pub open spec fn visible_boards(
    boards: Seq<Board>,
    perms: Seq<BoardPermission>,
    user: Id,
) -> Seq<(Id, BoardRole)> {
    boards.filter_map(
        |b: Board|
            match role_in(perms, b.id, user) {
                Some(r) => Some((b.id, r)),
                None => None,
            },
    )
}

/// A board row with the identifier `id` is the row of `id`.
pub proof fn lemma_board_row(store: &Store, k: int)
    requires
        store.wf(),
        0 <= k < store.boards().len(),
    ensures
        has_board(store.boards(), store.boards()[k].id),
        board_row(store.boards(), store.boards()[k].id) == k,
        store.board(store.boards()[k].id) == store.boards()[k],
{
    reveal(boards_ok);
    let id = store.boards()[k].id;
    let j: int = board_row(store.boards(), id);
    if j < k {
        assert(store.boards()[j].id != store.boards()[k].id);
    } else if k < j {
        assert(store.boards()[k].id != store.boards()[j].id);
    }
}

/// A row that grants a role is the one that says what role the user holds.
pub proof fn lemma_role_row(store: &Store, k: int)
    requires
        store.wf(),
        0 <= k < store.permissions().len(),
    ensures
        store.role(store.permissions()[k].board_id, store.permissions()[k].user_id) == Some(
            store.permissions()[k].role,
        ),
{
    reveal(boards_ok);
    let perms = store.permissions();
    let board = perms[k].board_id;
    let user = perms[k].user_id;
    assert(grants(perms, k, board, user));
    let j: int = choose|j: int| grants(perms, j, board, user);
    if j < k {
        assert(!(perms[j].board_id == perms[k].board_id && perms[j].user_id == perms[k].user_id));
    } else if k < j {
        assert(!(perms[k].board_id == perms[j].board_id && perms[k].user_id == perms[j].user_id));
    }
}

/// One owner. In a valid store the owner's role on a board is held by the user
/// that the board names as its owner, and by no one else.
pub proof fn law_one_owner(store: &Store, board: Id, user: Id)
    requires
        store.wf(),
        has_board(store.boards(), board),
    ensures
        store.role(board, user) == Some(BoardRole::Owner) <==> store.board(board).owner_id == user,
{
    reveal(boards_ok);
    let row: int = board_row(store.boards(), board);
    assert(store.boards()[row].id == board);
    assert(store.role(board, store.boards()[row].owner_id) == Some(BoardRole::Owner));
    if store.role(board, user) is Some {
        let k: int = choose|k: int| grants(store.permissions(), k, board, user);
        assert(grants(store.permissions(), k, board, user));
        assert(has_board(store.boards(), store.permissions()[k].board_id));
    }
}

/// A role is held on a board that exists.
pub proof fn lemma_role_on_board(store: &Store, board: Id, user: Id)
    requires
        store.wf(),
        store.role(board, user) is Some,
    ensures
        has_board(store.boards(), board),
{
    reveal(boards_ok);
    let k: int = choose|k: int| grants(store.permissions(), k, board, user);
    assert(has_board(store.boards(), store.permissions()[k].board_id));
}

impl Store {
    pub(crate) fn find_board_row(&self, id: Id) -> (found: Option<usize>)
        requires
            self.wf(),
        ensures
            match found {
                Some(k) => k < self.boards().len() && self.boards()[k as int].id == id
                    && has_board(self.boards(), id) && board_row(self.boards(), id) == k,
                None => !has_board(self.boards(), id),
            },
    {
        let mut i: usize = 0;
        while i < self.boards.len()
            invariant
                self.wf(),
                i <= self.boards.len(),
                forall|k: int| 0 <= k < i ==> (#[trigger] self.boards@[k]).id != id,
            decreases self.boards.len() - i,
        {
            if self.boards[i].id == id {
                proof {
                    lemma_board_row(self, i as int);
                }
                return Some(i);
            }
            i += 1;
        }
        None
    }

    pub(crate) fn find_role_row(&self, board: Id, user: Id) -> (found: Option<usize>)
        requires
            self.wf(),
        ensures
            match found {
                Some(k) => grants(self.permissions(), k as int, board, user) && self.role(
                    board,
                    user,
                ) == Some(self.permissions()[k as int].role),
                None => self.role(board, user) is None,
            },
    {
        let mut i: usize = 0;
        while i < self.permissions.len()
            invariant
                self.wf(),
                i <= self.permissions.len(),
                forall|k: int| 0 <= k < i ==> !grants(self.permissions(), k, board, user),
            decreases self.permissions.len() - i,
        {
            if self.permissions[i].board_id == board && self.permissions[i].user_id == user {
                proof {
                    lemma_role_row(self, i as int);
                }
                return Some(i);
            }
            i += 1;
        }
        None
    }

    /// The board `id`.
    pub fn find_board(&self, id: Id) -> (found: Option<&Board>)
        requires
            self.wf(),
        ensures
            found is Some <==> has_board(self.boards(), id),
            found matches Some(b) ==> *b == self.board(id) && b.id == id,
    {
        match self.find_board_row(id) {
            Some(k) => Some(&self.boards[k]),
            None => None,
        }
    }

    /// The role that `user` holds on `board`, if any.
    pub fn get_user_role(&self, board: Id, user: Id) -> (role: Option<BoardRole>)
        requires
            self.wf(),
        ensures
            role == self.role(board, user),
    {
        match self.find_role_row(board, user) {
            Some(k) => Some(self.permissions[k].role),
            None => None,
        }
    }

    /// Creates a board with `owner` as its owner. The new board is the most
    /// recently changed one.
    pub fn create_board(&mut self, board: Board) -> (done: Result<(), StoreError>)
        requires
            old(self).wf(),
        ensures
            final(self).wf(),
            done is Err <==> has_board(old(self).boards(), board.id),
            done matches Err(e) ==> e == StoreError::DuplicateId && *final(self) == *old(self),
            done is Ok ==> {
                &&& final(self).boards() == old(self).boards().insert(0, board)
                &&& final(self).permissions() == old(self).permissions().push(
                    BoardPermission {
                        board_id: board.id,
                        user_id: board.owner_id,
                        role: BoardRole::Owner,
                    },
                )
                &&& final(self).same_records(old(self))
            },
    {
        if self.find_board_row(board.id).is_some() {
            return Err(StoreError::DuplicateId);
        }
        let ghost before = *self;
        let id = board.id;
        let owner = board.owner_id;
        self.boards.insert(0, board);
        self.permissions.push(BoardPermission { board_id: id, user_id: owner, role: BoardRole::Owner });
        proof {
            reveal(boards_ok);
            let after = *self;
            let n: int = before.permissions().len() as int;
            assert forall|k: int| 0 <= k < after.boards().len() implies {
                &&& has_board(after.boards(), #[trigger] after.boards()[k].id)
                &&& after.board(after.boards()[k].id) == after.boards()[k]
            } by {
                let j: int = board_row(after.boards(), after.boards()[k].id);
                if j != k {
                    if j > 0 && k > 0 {
                        if j < k {
                            assert(before.boards()[j - 1].id != before.boards()[k - 1].id);
                        } else {
                            assert(before.boards()[k - 1].id != before.boards()[j - 1].id);
                        }
                    } else if j > 0 {
                        assert(before.boards()[j - 1].id == id);
                    } else {
                        assert(before.boards()[k - 1].id == id);
                    }
                }
            }
            assert forall|k: int| 0 <= k < n implies (#[trigger] before.permissions()[k]).board_id
                != id by {
                assert(has_board(before.boards(), before.permissions()[k].board_id));
            }
            assert forall|k: int| 0 <= k < after.permissions().len() implies {
                &&& has_board(after.boards(), (#[trigger] after.permissions()[k]).board_id)
                &&& (after.permissions()[k].role == BoardRole::Owner <==> after.board(
                    after.permissions()[k].board_id,
                ).owner_id == after.permissions()[k].user_id)
            } by {
                if k < n {
                    let b = before.permissions()[k].board_id;
                    let j: int = board_row(before.boards(), b);
                    assert(after.boards()[j + 1].id == b);
                    assert(after.board(b) == after.boards()[j + 1]);
                } else {
                    assert(after.boards()[0].id == id);
                }
            }
            assert forall|k: int| 0 <= k < after.boards().len() implies after.role(
                (#[trigger] after.boards()[k]).id,
                after.boards()[k].owner_id,
            ) == Some(BoardRole::Owner) by {
                let b = after.boards()[k].id;
                let o = after.boards()[k].owner_id;
                if k == 0 {
                    assert(grants(after.permissions(), n, b, o));
                    let j: int = choose|j: int| grants(after.permissions(), j, b, o);
                    assert(j == n);
                } else {
                    assert(before.role(before.boards()[k - 1].id, o) == Some(BoardRole::Owner));
                    let j0: int = choose|j: int| grants(before.permissions(), j, b, o);
                    assert(grants(after.permissions(), j0, b, o));
                    let j: int = choose|j: int| grants(after.permissions(), j, b, o);
                    if j != j0 {
                        if j < n {
                            if j < j0 {
                                assert(!(before.permissions()[j].board_id
                                    == before.permissions()[j0].board_id
                                    && before.permissions()[j].user_id
                                    == before.permissions()[j0].user_id));
                            } else {
                                assert(!(before.permissions()[j0].board_id
                                    == before.permissions()[j].board_id
                                    && before.permissions()[j0].user_id
                                    == before.permissions()[j].user_id));
                            }
                        }
                    }
                }
            }
        }
        Ok(())
    }

    /// What `add_permission` answers.
    pub open spec fn add_permission_verdict(&self, board: Id, user: Id, role: BoardRole) -> Result<
        (),
        StoreError,
    > {
        if !has_board(self.boards(), board) {
            Err(StoreError::NotFound)
        } else if role == BoardRole::Owner || self.board(board).owner_id == user {
            Err(StoreError::OwnerFixed)
        } else {
            Ok(())
        }
    }

    /// What `remove_permission` answers.
    pub open spec fn remove_permission_verdict(&self, board: Id, user: Id) -> Result<
        (),
        StoreError,
    > {
        match self.role(board, user) {
            None => Err(StoreError::NotFound),
            Some(BoardRole::Owner) => Err(StoreError::OwnerFixed),
            Some(_) => Ok(()),
        }
    }

    /// The boards that `user` holds a role on, the most recently changed first.
    pub fn list_for_user(&self, user: Id) -> (list: Vec<(Id, BoardRole)>)
        requires
            self.wf(),
        ensures
            list@ == visible_boards(self.boards(), self.permissions(), user),
    {
        let mut list: Vec<(Id, BoardRole)> = Vec::new();
        let mut i: usize = 0;
        proof {
            assert(self.boards().take(0) =~= Seq::<Board>::empty());
        }
        while i < self.boards.len()
            invariant
                self.wf(),
                i <= self.boards.len(),
                list@ == visible_boards(self.boards().take(i as int), self.permissions(), user),
            decreases self.boards.len() - i,
        {
            let id = self.boards[i].id;
            proof {
                assert(self.boards().take(i + 1).drop_last() =~= self.boards().take(i as int));
            }
            match self.get_user_role(id, user) {
                Some(r) => {
                    list.push((id, r));
                },
                None => {},
            }
            i += 1;
        }
        proof {
            assert(self.boards().take(i as int) =~= self.boards());
        }
        list
    }

    /// Gives `user` the role `role` on `board`, in place of the role held so far if
    /// there is one. The owner of a board is fixed: no one is made owner, and the
    /// owner's role is not changed.
    pub fn add_permission(&mut self, board: Id, user: Id, role: BoardRole) -> (done: Result<
        (),
        StoreError,
    >)
        requires
            old(self).wf(),
        ensures
            final(self).wf(),
            done is Ok <==> old(self).add_permission_verdict(board, user, role) is Ok,
            done matches Err(e) ==> old(self).add_permission_verdict(board, user, role) == Err::<
                (),
                StoreError,
            >(e) && *final(self) == *old(self),
            done is Ok ==> {
                &&& final(self).boards() == old(self).boards()
                &&& final(self).same_records(old(self))
                &&& forall|b: Id, u: Id| #[trigger]
                    final(self).role(b, u) == if b == board && u == user {
                        Some(role)
                    } else {
                        old(self).role(b, u)
                    }
            },
    {
        let owner = match self.find_board(board) {
            None => {
                return Err(StoreError::NotFound);
            },
            Some(b) => b.owner_id,
        };
        if role == BoardRole::Owner || owner == user {
            return Err(StoreError::OwnerFixed);
        }
        let ghost before = *self;
        let found = self.find_role_row(board, user);
        match found {
            Some(k) => {
                self.permissions[k].role = role;
            },
            None => {
                self.permissions.push(BoardPermission { board_id: board, user_id: user, role });
            },
        }
        proof {
            reveal(boards_ok);
            let after = *self;
            let row: int = match found {
                Some(k) => k as int,
                None => before.permissions().len() as int,
            };
            assert(grants(after.permissions(), row, board, user));
            assert forall|k: int, b: Id, u: Id|
                #![trigger grants(after.permissions(), k, b, u)]
                k != row ==> grants(after.permissions(), k, b, u) == grants(
                    before.permissions(),
                    k,
                    b,
                    u,
                ) by {}
            assert forall|k: int| 0 <= k < before.permissions().len() && k != row implies !grants(
                before.permissions(),
                k,
                board,
                user,
            ) by {
                if grants(before.permissions(), k, board, user) {
                    lemma_role_row(&before, k);
                    if found is Some {
                        lemma_role_row(&before, row);
                        if k < row {
                            assert(!(before.permissions()[k].board_id
                                == before.permissions()[row].board_id
                                && before.permissions()[k].user_id
                                == before.permissions()[row].user_id));
                        } else {
                            assert(!(before.permissions()[row].board_id
                                == before.permissions()[k].board_id
                                && before.permissions()[row].user_id
                                == before.permissions()[k].user_id));
                        }
                    }
                }
            }
            assert forall|i: int, j: int| 0 <= i < j < after.permissions().len() implies !((
            #[trigger] after.permissions()[i]).board_id == (
            #[trigger] after.permissions()[j]).board_id && after.permissions()[i].user_id
                == after.permissions()[j].user_id) by {
                if i != row && j != row {
                    assert(!(before.permissions()[i].board_id == before.permissions()[j].board_id
                        && before.permissions()[i].user_id == before.permissions()[j].user_id));
                } else if found is Some {
                    assert(!(before.permissions()[i].board_id == before.permissions()[j].board_id
                        && before.permissions()[i].user_id == before.permissions()[j].user_id));
                } else {
                    assert(!grants(before.permissions(), i, board, user));
                }
            }
            assert forall|b: Id, u: Id| #[trigger]
                after.role(b, u) == if b == board && u == user {
                    Some(role)
                } else {
                    before.role(b, u)
                } by {
                if b == board && u == user {
                    let j: int = choose|j: int| grants(after.permissions(), j, b, u);
                    if j != row {
                        assert(grants(before.permissions(), j, board, user));
                    }
                } else {
                    if exists|j: int| grants(before.permissions(), j, b, u) {
                        let j0: int = choose|j: int| grants(before.permissions(), j, b, u);
                        assert(grants(after.permissions(), j0, b, u));
                        let j: int = choose|j: int| grants(after.permissions(), j, b, u);
                        assert(grants(before.permissions(), j, b, u));
                        lemma_role_row(&before, j);
                        lemma_role_row(&before, j0);
                    } else {
                        if exists|j: int| grants(after.permissions(), j, b, u) {
                            let j: int = choose|j: int| grants(after.permissions(), j, b, u);
                            assert(grants(before.permissions(), j, b, u));
                        }
                    }
                }
            }
            assert forall|k: int| 0 <= k < after.permissions().len() implies {
                &&& has_board(after.boards(), (#[trigger] after.permissions()[k]).board_id)
                &&& (after.permissions()[k].role == BoardRole::Owner <==> after.boards()[board_row(
                    after.boards(),
                    after.permissions()[k].board_id,
                )].owner_id == after.permissions()[k].user_id)
            } by {
                if k != row {
                    assert(has_board(before.boards(), before.permissions()[k].board_id));
                } else if found is Some {
                    assert(has_board(before.boards(), before.permissions()[k].board_id));
                }
            }
            assert forall|k: int| 0 <= k < after.boards().len() implies role_in(
                after.permissions(),
                (#[trigger] after.boards()[k]).id,
                after.boards()[k].owner_id,
            ) == Some(BoardRole::Owner) by {
                let b = after.boards()[k].id;
                let o = after.boards()[k].owner_id;
                assert(after.role(b, o) == if b == board && o == user {
                    Some(role)
                } else {
                    before.role(b, o)
                });
                lemma_board_row(&before, k);
            }
        }
        Ok(())
    }

    /// Takes the role that `user` holds on `board` away. The owner keeps the role.
    pub fn remove_permission(&mut self, board: Id, user: Id) -> (done: Result<(), StoreError>)
        requires
            old(self).wf(),
        ensures
            final(self).wf(),
            done is Ok <==> old(self).remove_permission_verdict(board, user) is Ok,
            done matches Err(e) ==> old(self).remove_permission_verdict(board, user) == Err::<
                (),
                StoreError,
            >(e) && *final(self) == *old(self),
            done is Ok ==> {
                &&& final(self).boards() == old(self).boards()
                &&& final(self).same_records(old(self))
                &&& forall|b: Id, u: Id| #[trigger]
                    final(self).role(b, u) == if b == board && u == user {
                        None
                    } else {
                        old(self).role(b, u)
                    }
            },
    {
        let row = match self.find_role_row(board, user) {
            None => {
                return Err(StoreError::NotFound);
            },
            Some(k) => k,
        };
        if self.permissions[row].role == BoardRole::Owner {
            return Err(StoreError::OwnerFixed);
        }
        let ghost before = *self;
        self.permissions.remove(row);
        proof {
            reveal(boards_ok);
            let after = *self;
            let up = |j: int| if j < row { j } else { j + 1 };
            assert forall|j: int| 0 <= j < after.permissions().len() implies #[trigger] after.permissions()[j]
                == before.permissions()[up(j)] by {}
            assert forall|j: int, b: Id, u: Id|
                #![trigger grants(after.permissions(), j, b, u)]
                grants(after.permissions(), j, b, u) ==> grants(
                    before.permissions(),
                    up(j),
                    b,
                    u,
                ) by {}
            assert forall|i: int, j: int| 0 <= i < j < after.permissions().len() implies !((
            #[trigger] after.permissions()[i]).board_id == (
            #[trigger] after.permissions()[j]).board_id && after.permissions()[i].user_id
                == after.permissions()[j].user_id) by {
                assert(!(before.permissions()[up(i)].board_id == before.permissions()[up(
                    j,
                )].board_id && before.permissions()[up(i)].user_id == before.permissions()[up(
                    j,
                )].user_id));
            }
            assert forall|b: Id, u: Id| #[trigger]
                after.role(b, u) == if b == board && u == user {
                    None
                } else {
                    before.role(b, u)
                } by {
                if exists|j: int| grants(after.permissions(), j, b, u) {
                    let j: int = choose|j: int| grants(after.permissions(), j, b, u);
                    assert(grants(before.permissions(), up(j), b, u));
                    lemma_role_row(&before, up(j));
                    if b == board && u == user {
                        lemma_role_row(&before, row as int);
                        if up(j) < row {
                            assert(!(before.permissions()[up(j)].board_id
                                == before.permissions()[row as int].board_id
                                && before.permissions()[up(j)].user_id
                                == before.permissions()[row as int].user_id));
                        } else {
                            assert(!(before.permissions()[row as int].board_id
                                == before.permissions()[up(j)].board_id
                                && before.permissions()[row as int].user_id
                                == before.permissions()[up(j)].user_id));
                        }
                    }
                } else {
                    if !(b == board && u == user) {
                        if exists|j: int| grants(before.permissions(), j, b, u) {
                            let j0: int = choose|j: int| grants(before.permissions(), j, b, u);
                            let j: int = if j0 < row { j0 } else { j0 - 1 };
                            assert(after.permissions()[j] == before.permissions()[up(j)]);
                            assert(grants(after.permissions(), j, b, u));
                        }
                    }
                }
            }
            assert forall|k: int| 0 <= k < after.permissions().len() implies {
                &&& has_board(after.boards(), (#[trigger] after.permissions()[k]).board_id)
                &&& (after.permissions()[k].role == BoardRole::Owner <==> after.boards()[board_row(
                    after.boards(),
                    after.permissions()[k].board_id,
                )].owner_id == after.permissions()[k].user_id)
            } by {
                assert(has_board(before.boards(), before.permissions()[up(k)].board_id));
            }
            assert forall|k: int| 0 <= k < after.boards().len() implies role_in(
                after.permissions(),
                (#[trigger] after.boards()[k]).id,
                after.boards()[k].owner_id,
            ) == Some(BoardRole::Owner) by {
                let b = after.boards()[k].id;
                let o = after.boards()[k].owner_id;
                assert(after.role(b, o) == if b == board && o == user {
                    None
                } else {
                    before.role(b, o)
                });
                if b == board && o == user {
                    lemma_role_row(&before, row as int);
                }
            }
        }
        Ok(())
    }

    /// This store is `before` with the board `id` changed and put first, as the
    /// most recently changed board: it has the name `name` and the description
    /// `description`, each where one is given, and is otherwise as it was.
    pub open spec fn board_updated(
        &self,
        before: &Store,
        id: Id,
        name: Option<Seq<char>>,
        description: Option<Seq<char>>,
    ) -> bool {
        let row = board_row(before.boards(), id);
        &&& self.permissions() == before.permissions()
        &&& self.same_records(before)
        &&& self.boards().len() == before.boards().len()
        &&& self.boards().drop_first() == before.boards().remove(row)
        &&& self.boards()[0].id == id
        &&& self.boards()[0].owner_id == before.board(id).owner_id
        &&& self.boards()[0].name@ == match name {
            Some(n) => n,
            None => before.board(id).name@,
        }
        &&& match description {
            Some(d) => self.boards()[0].description is Some && self.boards()[0].description->0@
                == d,
            None => self.boards()[0].description == before.board(id).description,
        }
    }

    /// Changes the name and the description of a board; what is `None` stays as it
    /// is. The board becomes the most recently changed one.
    pub fn update_board(&mut self, id: Id, name: Option<&str>, description: Option<&str>) -> (done:
        Result<(), StoreError>)
        requires
            old(self).wf(),
        ensures
            final(self).wf(),
            done is Ok <==> has_board(old(self).boards(), id),
            done matches Err(e) ==> e == StoreError::NotFound && *final(self) == *old(self),
            done is Ok ==> final(self).board_updated(
                old(self),
                id,
                match name {
                    Some(n) => Some(n@),
                    None => None,
                },
                match description {
                    Some(d) => Some(d@),
                    None => None,
                },
            ),
    {
        let row = match self.find_board_row(id) {
            None => {
                return Err(StoreError::NotFound);
            },
            Some(row) => row,
        };
        let ghost before = *self;
        let mut board = self.boards.remove(row);
        match name {
            Some(n) => {
                board.name = n.to_owned();
            },
            None => {},
        }
        match description {
            Some(d) => {
                board.description = Some(d.to_owned());
            },
            None => {},
        }
        self.boards.insert(0, board);
        proof {
            reveal(boards_ok);
            let after = *self;
            let boards = before.boards();
            assert(after.boards().drop_first() =~= boards.remove(row as int));
            // Row `j` of the new list holds the board of row `from(j)` of the old one.
            let from = |j: int| if j == 0 { row as int } else if j - 1 < row { j - 1 } else { j };
            assert forall|j: int| 0 <= j < after.boards().len() implies {
                &&& 0 <= from(j) < boards.len()
                &&& (#[trigger] after.boards()[j]).id == boards[from(j)].id
                &&& after.boards()[j].owner_id == boards[from(j)].owner_id
            } by {
                if j > 0 {
                    assert(after.boards()[j] == boards.remove(row as int)[j - 1]);
                }
            }
            assert forall|a: int, b: int| 0 <= a < b < after.boards().len() implies (
            #[trigger] after.boards()[a]).id != (#[trigger] after.boards()[b]).id by {
                if from(a) < from(b) {
                    assert(boards[from(a)].id != boards[from(b)].id);
                } else {
                    assert(boards[from(b)].id != boards[from(a)].id);
                }
            }
            assert forall|b: Id| has_board(boards, b) implies has_board(after.boards(), b)
                && after.boards()[board_row(after.boards(), b)].owner_id == boards[board_row(
                boards,
                b,
            )].owner_id by {
                let j0: int = board_row(boards, b);
                let j: int = if j0 == row { 0 } else if j0 < row { j0 + 1 } else { j0 };
                assert(from(j) == j0);
                assert(after.boards()[j].id == b);
                let c: int = board_row(after.boards(), b);
                if c < j {
                    assert(after.boards()[c].id != after.boards()[j].id);
                } else if j < c {
                    assert(after.boards()[j].id != after.boards()[c].id);
                }
            }
            assert forall|k: int| 0 <= k < after.permissions().len() implies {
                &&& has_board(after.boards(), (#[trigger] after.permissions()[k]).board_id)
                &&& (after.permissions()[k].role == BoardRole::Owner <==> after.boards()[board_row(
                    after.boards(),
                    after.permissions()[k].board_id,
                )].owner_id == after.permissions()[k].user_id)
            } by {
                assert(has_board(boards, before.permissions()[k].board_id));
            }
            assert forall|k: int| 0 <= k < after.boards().len() implies role_in(
                after.permissions(),
                (#[trigger] after.boards()[k]).id,
                after.boards()[k].owner_id,
            ) == Some(BoardRole::Owner) by {
                assert(role_in(before.permissions(), boards[from(k)].id, boards[from(k)].owner_id)
                    == Some(BoardRole::Owner));
            }
        }
        Ok(())
    }
}

} // verus!
