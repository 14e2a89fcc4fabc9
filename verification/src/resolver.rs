//! Finding boards, columns, cards and tags by name.
//!
//! A name matches when it equals the wanted one once both are in lower case. Where
//! several records match, the first in the order of the search wins: columns by
//! position, cards by the position of their column and then by their own, boards
//! by how recently they changed, tags by their name as written and then by when
//! they were created.
use crate::models::board::BoardRole;
use crate::position::{Container, Id};
use crate::store::{has_board, role_in, Store};
use crate::text::{
    comes_before, lemma_text_order_total, lemma_text_order_transitive, lowercase,
    same_ignoring_case, text_before,
};
use vstd::prelude::*;

verus! {

/// Two names match.
pub open spec fn names_match(a: Seq<char>, b: Seq<char>) -> bool {
    lowercase(a) == lowercase(b)
}

/// The first entry of `ids` that passes `hit`.
pub open spec fn first_hit(ids: Seq<Id>, hit: spec_fn(Id) -> bool) -> Option<Id>
    decreases ids.len(),
{
    if ids.len() == 0 {
        None
    } else if hit(ids[0]) {
        Some(ids[0])
    } else {
        first_hit(ids.drop_first(), hit)
    }
}

/// First match. What a search by name returns is the first entry, in the order of
/// the search, that matches: it matches, nothing before it does, and the search
/// returns nothing only where nothing matches.
pub proof fn law_first_hit(ids: Seq<Id>, hit: spec_fn(Id) -> bool)
    ensures
        match first_hit(ids, hit) {
            Some(id) => exists|k: int|
                0 <= k < ids.len() && #[trigger] ids[k] == id && hit(id) && forall|j: int|
                    0 <= j < k ==> !hit(#[trigger] ids[j]),
            None => forall|j: int| 0 <= j < ids.len() ==> !hit(#[trigger] ids[j]),
        },
    decreases ids.len(),
{
    if ids.len() > 0 && !hit(ids[0]) {
        let rest = ids.drop_first();
        law_first_hit(rest, hit);
        match first_hit(rest, hit) {
            Some(id) => {
                let k: int = choose|k: int|
                    0 <= k < rest.len() && #[trigger] rest[k] == id && hit(id) && forall|j: int|
                        0 <= j < k ==> !hit(#[trigger] rest[j]);
                assert(ids[k + 1] == id);
                assert forall|j: int| 0 <= j < k + 1 implies !hit(#[trigger] ids[j]) by {
                    if j > 0 {
                        assert(rest[j - 1] == ids[j]);
                    }
                }
            },
            None => {
                assert forall|j: int| 0 <= j < ids.len() implies !hit(#[trigger] ids[j]) by {
                    if j > 0 {
                        assert(rest[j - 1] == ids[j]);
                    }
                }
            },
        }
    } else if ids.len() > 0 {
        assert(ids[0] == ids[0]);
    }
}

/// Whom a tag is looked for: a board, or a user.
#[derive(Clone, Copy, Debug, PartialEq, Eq, Structural)]
pub enum TagScope {
    /// The tags of a board.
    Board(Id),
    /// The tags of a user.
    User(Id),
}

/// Whether the tag belongs to the scope.
pub open spec fn in_scope(tag: crate::models::tag::Tag, scope: TagScope) -> bool {
    match scope {
        TagScope::Board(board) => tag.board_id == Some(board),
        TagScope::User(user) => tag.owner_id == Some(user) && tag.board_id is None,
    }
}

impl Store {
    /// The column of `board` called `name`: the first by position whose name
    /// matches.
    pub open spec fn column_named(&self, board: Id, name: Seq<char>) -> Option<Id> {
        first_hit(
            self.columns().order(Container::Board(board)),
            |id: Id| names_match(self.columns().get(id).name@, name),
        )
    }

    /// The card of `column` called `title`: the first by position whose title
    /// matches.
    pub open spec fn card_titled_in(&self, column: Id, title: Seq<char>) -> Option<Id> {
        first_hit(
            self.cards().order(Container::Column(column)),
            |id: Id| names_match(self.cards().get(id).title@, title),
        )
    }

    /// The card called `title` in the columns `columns`: that of the first column
    /// that has one.
    pub open spec fn card_titled_among(&self, columns: Seq<Id>, title: Seq<char>) -> Option<Id>
        decreases columns.len(),
    {
        if columns.len() == 0 {
            None
        } else {
            match self.card_titled_in(columns[0], title) {
                Some(id) => Some(id),
                None => self.card_titled_among(columns.drop_first(), title),
            }
        }
    }

    /// The card of `board` called `title`: the columns are searched by position,
    /// and the cards of a column by position.
    pub open spec fn card_titled(&self, board: Id, title: Seq<char>) -> Option<Id> {
        self.card_titled_among(self.columns().order(Container::Board(board)), title)
    }

    /// Whether tag row `k` belongs to `scope` and is called `name`.
    pub open spec fn tag_matches(&self, k: int, scope: TagScope, name: Seq<char>) -> bool {
        in_scope(self.tags()[k], scope) && names_match(self.tags()[k].name@, name)
    }

    /// Whether tag row `k` is the tag of `scope` called `name`: it matches, no tag
    /// that matches has a name that comes before its name, and none with the same
    /// name was created before it.
    pub open spec fn tag_wins(&self, k: int, scope: TagScope, name: Seq<char>) -> bool {
        &&& 0 <= k < self.tags().len()
        &&& self.tag_matches(k, scope, name)
        &&& forall|j: int|
            0 <= j < self.tags().len() && #[trigger] self.tag_matches(j, scope, name) ==> {
                &&& !text_before(self.tags()[j].name@, self.tags()[k].name@)
                &&& self.tags()[j].name@ == self.tags()[k].name@ ==> k <= j
            }
    }

    /// The tag of `scope` called `name`. Names that differ in case only match the
    /// same wanted name: of several tags that match, the one whose name comes
    /// first in the order of texts wins, and of several with the same name the one
    /// created first.
    pub open spec fn tag_named(&self, scope: TagScope, name: Seq<char>) -> Option<Id> {
        if exists|k: int| self.tag_wins(k, scope, name) {
            Some(self.tags()[choose|k: int| self.tag_wins(k, scope, name)].id)
        } else {
            None
        }
    }

    /// One tag wins at most.
    pub proof fn lemma_one_tag_wins(&self, k: int, scope: TagScope, name: Seq<char>)
        requires
            self.tag_wins(k, scope, name),
        ensures
            self.tag_named(scope, name) == Some(self.tags()[k].id),
    {
        let c: int = choose|c: int| self.tag_wins(c, scope, name);
        assert(self.tag_matches(c, scope, name));
        assert(self.tag_matches(k, scope, name));
        lemma_text_order_total(self.tags()[c].name@, self.tags()[k].name@);
    }

    /// Whether board row `k` is a board that `user` holds a role on, called `name`.
    pub open spec fn board_matches(&self, k: int, user: Id, name: Seq<char>) -> bool {
        self.role(self.boards()[k].id, user) is Some && names_match(self.boards()[k].name@, name)
    }

    /// The board called `name` among the board rows from `from` on that `user`
    /// holds a role on, with that role.
    pub open spec fn board_named_from(&self, from: int, user: Id, name: Seq<char>) -> Option<
        (Id, BoardRole),
    >
        decreases self.boards().len() - from,
    {
        if from < 0 || from >= self.boards().len() {
            None
        } else if self.board_matches(from, user, name) {
            Some((self.boards()[from].id, self.role(self.boards()[from].id, user)->0))
        } else {
            self.board_named_from(from + 1, user, name)
        }
    }

    /// The board called `name` among those that `user` holds a role on, with that
    /// role: the most recently changed whose name matches.
    pub open spec fn board_named(&self, user: Id, name: Seq<char>) -> Option<(Id, BoardRole)> {
        self.board_named_from(0, user, name)
    }

    /// Whether card row `k` is a card that `user` holds, called `title`.
    pub open spec fn held_card_matches(&self, k: int, user: Id, title: Seq<char>) -> bool {
        crate::access::holds_card(self.cards().rows()[k], user) && names_match(
            self.cards().rows()[k].title@,
            title,
        )
    }

    /// The card called `title` among the card rows from `from` on that `user`
    /// holds, as its owner or its creator.
    pub open spec fn held_card_titled_from(&self, from: int, user: Id, title: Seq<char>) -> Option<
        Id,
    >
        decreases self.cards().rows().len() - from,
    {
        if from < 0 || from >= self.cards().rows().len() {
            None
        } else if self.held_card_matches(from, user, title) {
            Some(self.cards().rows()[from].id)
        } else {
            self.held_card_titled_from(from + 1, user, title)
        }
    }

    /// The card called `title` among those that `user` holds: the first created
    /// whose title matches.
    pub open spec fn held_card_titled(&self, user: Id, title: Seq<char>) -> Option<Id> {
        self.held_card_titled_from(0, user, title)
    }

    /// Finds a card by title among those that `user` holds.
    pub fn find_held_card_by_title(&self, user: Id, title: &str) -> (found: Option<Id>)
        requires
            self.wf(),
        ensures
            found == self.held_card_titled(user, title@),
            found matches Some(id) ==> self.cards().has(id) && crate::access::holds_card(
                self.cards().get(id),
                user,
            ) && names_match(self.cards().get(id).title@, title@),
    {
        let mut i: usize = 0;
        while i < self.cards.len()
            invariant
                self.wf(),
                i <= self.cards().rows().len(),
                self.held_card_titled(user, title@) == self.held_card_titled_from(
                    i as int,
                    user,
                    title@,
                ),
            decreases self.cards().rows().len() - i,
        {
            let card = self.cards.row(i);
            let mine = card.owner_id == Some(user) || card.created_by == user;
            if mine && same_ignoring_case(card.title.as_str(), title) {
                proof {
                    self.cards().lemma_row(i as int);
                }
                return Some(card.id);
            }
            i += 1;
        }
        None
    }

    /// Finds a column of `board` by name.
    pub fn find_column_by_name(&self, board: Id, name: &str) -> (found: Option<Id>)
        requires
            self.wf(),
        ensures
            found == self.column_named(board, name@),
            found matches Some(id) ==> self.columns().has(id) && self.columns().get(id).board_id
                == board && names_match(self.columns().get(id).name@, name@),
    {
        let ids = self.columns.list(Container::Board(board));
        let ghost hit = |id: Id| names_match(self.columns().get(id).name@, name@);
        let mut i: usize = 0;
        proof {
            assert(ids@.skip(0) =~= ids@);
            self.columns().lemma_order(Container::Board(board));
        }
        while i < ids.len()
            invariant
                self.wf(),
                i <= ids.len(),
                ids@ == self.columns().order(Container::Board(board)),
                hit == |id: Id| names_match(self.columns().get(id).name@, name@),
                first_hit(ids@, hit) == first_hit(ids@.skip(i as int), hit),
                forall|p: int|
                    0 <= p < ids.len() ==> self.columns().has(#[trigger] ids@[p])
                        && self.columns().get(ids@[p]).board_id == board,
            decreases ids.len() - i,
        {
            proof {
                assert(ids@.skip(i as int)[0] == ids@[i as int]);
                assert(ids@.skip(i as int).drop_first() =~= ids@.skip(i + 1));
            }
            match self.columns.find(ids[i]) {
                Some(column) => {
                    if same_ignoring_case(column.name.as_str(), name) {
                        return Some(ids[i]);
                    }
                },
                None => {},
            }
            i += 1;
        }
        None
    }

    /// Finds a card of `column` by title.
    pub fn find_card_in_column(&self, column: Id, title: &str) -> (found: Option<Id>)
        requires
            self.wf(),
        ensures
            found == self.card_titled_in(column, title@),
            found matches Some(id) ==> self.cards().has(id) && self.cards().slot(id).container
                == Container::Column(column) && names_match(self.cards().get(id).title@, title@),
    {
        let ids = self.cards.list(Container::Column(column));
        let ghost hit = |id: Id| names_match(self.cards().get(id).title@, title@);
        let mut i: usize = 0;
        proof {
            assert(ids@.skip(0) =~= ids@);
            self.cards().lemma_order(Container::Column(column));
        }
        while i < ids.len()
            invariant
                self.wf(),
                i <= ids.len(),
                ids@ == self.cards().order(Container::Column(column)),
                hit == |id: Id| names_match(self.cards().get(id).title@, title@),
                first_hit(ids@, hit) == first_hit(ids@.skip(i as int), hit),
                forall|p: int|
                    0 <= p < ids.len() ==> self.cards().has(#[trigger] ids@[p])
                        && self.cards().slot(ids@[p]).container == Container::Column(column),
            decreases ids.len() - i,
        {
            proof {
                assert(ids@.skip(i as int)[0] == ids@[i as int]);
                assert(ids@.skip(i as int).drop_first() =~= ids@.skip(i + 1));
            }
            match self.cards.find(ids[i]) {
                Some(card) => {
                    if same_ignoring_case(card.title.as_str(), title) {
                        return Some(ids[i]);
                    }
                },
                None => {},
            }
            i += 1;
        }
        None
    }

    /// Finds a card of `board` by title: the columns are searched by position, the
    /// cards of a column by position, and the first match is returned.
    pub fn find_card_by_title(&self, board: Id, title: &str) -> (found: Option<Id>)
        requires
            self.wf(),
        ensures
            found == self.card_titled(board, title@),
            found matches Some(id) ==> self.cards().has(id) && names_match(
                self.cards().get(id).title@,
                title@,
            ),
    {
        let columns = self.columns.list(Container::Board(board));
        let mut i: usize = 0;
        proof {
            assert(columns@.skip(0) =~= columns@);
        }
        while i < columns.len()
            invariant
                self.wf(),
                i <= columns.len(),
                columns@ == self.columns().order(Container::Board(board)),
                self.card_titled(board, title@) == self.card_titled_among(
                    columns@.skip(i as int),
                    title@,
                ),
            decreases columns.len() - i,
        {
            proof {
                assert(columns@.skip(i as int)[0] == columns@[i as int]);
                assert(columns@.skip(i as int).drop_first() =~= columns@.skip(i + 1));
            }
            match self.find_card_in_column(columns[i], title) {
                Some(id) => {
                    return Some(id);
                },
                None => {},
            }
            i += 1;
        }
        None
    }

    /// Finds a tag of a board, or of a user, by name.
    pub fn find_tag_in(&self, scope: TagScope, name: &str) -> (found: Option<Id>)
        requires
            self.wf(),
        ensures
            found == self.tag_named(scope, name@),
            found matches Some(id) ==> crate::store::has_tag(self.tags(), id) && in_scope(
                self.tag(id),
                scope,
            ) && names_match(self.tag(id).name@, name@),
            found is None <==> forall|k: int|
                0 <= k < self.tags().len() ==> !self.tag_matches(k, scope, name@),
    {
        let mut best: Option<usize> = None;
        let mut i: usize = 0;
        while i < self.tags.len()
            invariant
                self.wf(),
                i <= self.tags.len(),
                match best {
                    Some(k) => {
                        &&& k < i
                        &&& self.tag_matches(k as int, scope, name@)
                        &&& forall|j: int|
                            0 <= j < i && #[trigger] self.tag_matches(j, scope, name@) ==> {
                                &&& !text_before(self.tags()[j].name@, self.tags()[k as int].name@)
                                &&& self.tags()[j].name@ == self.tags()[k as int].name@ ==> k <= j
                            }
                    },
                    None => forall|j: int| 0 <= j < i ==> !self.tag_matches(j, scope, name@),
                },
            decreases self.tags.len() - i,
        {
            let tag = &self.tags[i];
            let mine = match scope {
                TagScope::Board(board) => match tag.board_id {
                    Some(b) => b == board,
                    None => false,
                },
                TagScope::User(user) => match tag.owner_id {
                    Some(o) => o == user && tag.board_id.is_none(),
                    None => false,
                },
            };
            if mine && same_ignoring_case(tag.name.as_str(), name) {
                proof {
                    lemma_text_order_total(self.tags()[i as int].name@, self.tags()[i as int].name@);
                }
                match best {
                    None => {
                        best = Some(i);
                    },
                    Some(k) => {
                        if comes_before(tag.name.as_str(), self.tags[k].name.as_str()) {
                            proof {
                                assert forall|j: int|
                                    0 <= j < i && #[trigger] self.tag_matches(
                                        j,
                                        scope,
                                        name@,
                                    ) implies !text_before(
                                    self.tags()[j].name@,
                                    self.tags()[i as int].name@,
                                ) && self.tags()[j].name@ != self.tags()[i as int].name@ by {
                                    if text_before(
                                        self.tags()[j].name@,
                                        self.tags()[i as int].name@,
                                    ) {
                                        lemma_text_order_transitive(
                                            self.tags()[j].name@,
                                            self.tags()[i as int].name@,
                                            self.tags()[k as int].name@,
                                        );
                                    }
                                    if self.tags()[j].name@ == self.tags()[i as int].name@ {
                                        assert(text_before(
                                            self.tags()[j].name@,
                                            self.tags()[k as int].name@,
                                        ));
                                    }
                                }
                            }
                            best = Some(i);
                        }
                    },
                }
            }
            i += 1;
        }
        match best {
            Some(k) => {
                proof {
                    self.lemma_one_tag_wins(k as int, scope, name@);
                    crate::store::tags::lemma_tag_row(self, k as int);
                }
                Some(self.tags[k].id)
            },
            None => {
                proof {
                    if exists|k: int| self.tag_wins(k, scope, name@) {
                        let k: int = choose|k: int| self.tag_wins(k, scope, name@);
                        assert(self.tag_matches(k, scope, name@));
                    }
                }
                None
            },
        }
    }

    /// Finds a tag of `board` by name.
    pub fn find_tag_by_name(&self, board: Id, name: &str) -> (found: Option<Id>)
        requires
            self.wf(),
        ensures
            found == self.tag_named(TagScope::Board(board), name@),
            found matches Some(id) ==> has_tag_of(self, id, board) && names_match(
                self.tag(id).name@,
                name@,
            ),
    {
        self.find_tag_in(TagScope::Board(board), name)
    }

    /// Finds a tag of the user `owner` by name.
    pub fn find_user_tag_by_name(&self, owner: Id, name: &str) -> (found: Option<Id>)
        requires
            self.wf(),
        ensures
            found == self.tag_named(TagScope::User(owner), name@),
            found matches Some(id) ==> crate::store::has_tag(self.tags(), id) && self.tag(
                id,
            ).owner_id == Some(owner) && names_match(self.tag(id).name@, name@),
    {
        self.find_tag_in(TagScope::User(owner), name)
    }

    /// Finds a board by name among those that `user` holds a role on, and says
    /// which role that is.
    pub fn find_board_by_name(&self, user: Id, name: &str) -> (found: Option<(Id, BoardRole)>)
        requires
            self.wf(),
        ensures
            found == self.board_named(user, name@),
            found matches Some(pair) ==> has_board(self.boards(), pair.0) && self.role(pair.0, user)
                == Some(pair.1) && names_match(self.board(pair.0).name@, name@),
    {
        let mut i: usize = 0;
        while i < self.boards.len()
            invariant
                self.wf(),
                i <= self.boards.len(),
                self.board_named(user, name@) == self.board_named_from(i as int, user, name@),
            decreases self.boards.len() - i,
        {
            let board = &self.boards[i];
            match self.get_user_role(board.id, user) {
                Some(role) => {
                    if same_ignoring_case(board.name.as_str(), name) {
                        proof {
                            crate::store::boards::lemma_board_row(self, i as int);
                        }
                        return Some((board.id, role));
                    }
                },
                None => {},
            }
            i += 1;
        }
        None
    }
}

/// There is a tag `id`, and it belongs to `board`.
pub open spec fn has_tag_of(store: &Store, id: Id, board: Id) -> bool {
    crate::store::has_tag(store.tags(), id) && store.tag(id).board_id == Some(board)
}

} // verus!
