//! The records of the task board, held in memory.
//!
//! The store is the library's model of the persistence layer: records by
//! identifier, ordered containers kept dense, and the rules that tie them together.
pub mod board_deleting;
pub mod boards;
pub mod cards;
pub mod columns;
pub mod deleting;
pub mod lanes;
pub mod listing;
pub mod reading;
pub mod sieve;
pub mod table;
pub mod tags;

use crate::models::board::{Board, BoardPermission, BoardRole};
use crate::models::card::{Card, CardBoardAssignment};
use crate::models::column::Column;
use crate::models::tag::{CardTag, Tag};
use crate::position::{Container, Id, PositionError};
use crate::store::table::{Keyed, Table};
use vstd::prelude::*;

verus! {

impl Keyed for Column {
    open spec fn key(&self) -> Id {
        self.id
    }

    /// A column stands among the columns of its board.
    open spec fn fits(&self, c: Container) -> bool {
        c == Container::Board(self.board_id)
    }

    fn id(&self) -> (id: Id) {
        self.id
    }
}

impl Keyed for Card {
    open spec fn key(&self) -> Id {
        self.id
    }

    /// A card stands in a column or in the inbox of a user.
    open spec fn fits(&self, c: Container) -> bool {
        c is Column || c is Inbox
    }

    fn id(&self) -> (id: Id) {
        self.id
    }
}

impl Keyed for CardBoardAssignment {
    open spec fn key(&self) -> Id {
        self.id
    }

    /// An attachment stands in a lane of its board.
    open spec fn fits(&self, c: Container) -> bool {
        c matches Container::Lane(board, _) && board == self.board_id
    }

    fn id(&self) -> (id: Id) {
        self.id
    }
}

/// Why the store turned a request down. Nothing is changed when one is returned.
#[derive(Clone, Copy, Debug, PartialEq, Eq, Structural)]
pub enum StoreError {
    /// A record that the request names does not exist.
    NotFound,
    /// The identifier of the new record is taken.
    DuplicateId,
    /// The wanted position is negative or beyond the end of the container.
    OutOfRange,
    /// The container holds as many records as positions can number.
    Full,
    /// The request would give a board a second owner or take its owner away.
    OwnerFixed,
    /// The card is attached to the board already.
    AlreadyAttached,
    /// The column belongs to another board.
    WrongBoard,
}

/// The store's word for a refusal of the position store.
pub open spec fn store_error(e: PositionError) -> StoreError {
    match e {
        PositionError::UnknownItem => StoreError::NotFound,
        PositionError::DuplicateItem => StoreError::DuplicateId,
        PositionError::OutOfRange => StoreError::OutOfRange,
        PositionError::Full => StoreError::Full,
    }
}

/// The store's word for a refusal of the position store.
pub fn as_store_error(e: PositionError) -> (s: StoreError)
    ensures
        s == store_error(e),
{
    match e {
        PositionError::UnknownItem => StoreError::NotFound,
        PositionError::DuplicateItem => StoreError::DuplicateId,
        PositionError::OutOfRange => StoreError::OutOfRange,
        PositionError::Full => StoreError::Full,
    }
}

/// There is a board `id`.
pub open spec fn has_board(boards: Seq<Board>, id: Id) -> bool {
    exists|k: int| 0 <= k < boards.len() && #[trigger] boards[k].id == id
}

/// The row of board `id`, where there is one.
pub open spec fn board_row(boards: Seq<Board>, id: Id) -> int {
    choose|k: int| 0 <= k < boards.len() && #[trigger] boards[k].id == id
}

/// Row `k` says what role `user` holds on `board`.
pub open spec fn grants(perms: Seq<BoardPermission>, k: int, board: Id, user: Id) -> bool {
    0 <= k < perms.len() && perms[k].board_id == board && perms[k].user_id == user
}

/// The role that `user` holds on `board`, if any.
pub open spec fn role_in(perms: Seq<BoardPermission>, board: Id, user: Id) -> Option<BoardRole> {
    if exists|k: int| grants(perms, k, board, user) {
        Some(perms[choose|k: int| grants(perms, k, board, user)].role)
    } else {
        None
    }
}

/// There is a tag `id`.
pub open spec fn has_tag(tags: Seq<Tag>, id: Id) -> bool {
    exists|k: int| 0 <= k < tags.len() && #[trigger] tags[k].id == id
}

/// The row of tag `id`, where there is one.
pub open spec fn tag_row(tags: Seq<Tag>, id: Id) -> int {
    choose|k: int| 0 <= k < tags.len() && #[trigger] tags[k].id == id
}

/// The card carries the tag.
pub open spec fn tagged(card_tags: Seq<CardTag>, card: Id, tag: Id) -> bool {
    card_tags.contains(CardTag { card_id: card, tag_id: tag })
}

/// The attachment `a` ties `card` to `board`.
pub open spec fn ties(t: Table<CardBoardAssignment>, a: Id, card: Id, board: Id) -> bool {
    t.has(a) && t.get(a).card_id == card && t.get(a).board_id == board
}

/// The card is attached to the board.
pub open spec fn attached(t: Table<CardBoardAssignment>, card: Id, board: Id) -> bool {
    exists|a: Id| ties(t, a, card, board)
}

/// The attachment of the card to the board, where there is one.
pub open spec fn attachment(t: Table<CardBoardAssignment>, card: Id, board: Id) -> Id {
    choose|a: Id| ties(t, a, card, board)
}

/// The attachment `a` is one of `card`.
pub open spec fn holds(t: Table<CardBoardAssignment>, a: Id, card: Id) -> bool {
    t.has(a) && t.get(a).card_id == card
}

/// The card is attached to some board.
pub open spec fn attached_somewhere(t: Table<CardBoardAssignment>, card: Id) -> bool {
    exists|a: Id| holds(t, a, card)
}

/// No two boards share an identifier; every role is held on an existing board, at
/// most once per user; and the one owner of a board is the user it names as such.
#[verifier::opaque]
pub open spec fn boards_ok(boards: Seq<Board>, perms: Seq<BoardPermission>) -> bool {
    &&& forall|i: int, j: int|
        0 <= i < j < boards.len() ==> (#[trigger] boards[i]).id != (#[trigger] boards[j]).id
    &&& forall|i: int, j: int|
        0 <= i < j < perms.len() ==> !((#[trigger] perms[i]).board_id == (
        #[trigger] perms[j]).board_id && perms[i].user_id == perms[j].user_id)
    &&& forall|k: int|
        0 <= k < perms.len() ==> {
            &&& has_board(boards, (#[trigger] perms[k]).board_id)
            &&& (perms[k].role == BoardRole::Owner <==> boards[board_row(
                boards,
                perms[k].board_id,
            )].owner_id == perms[k].user_id)
        }
    &&& forall|k: int|
        0 <= k < boards.len() ==> role_in(perms, (#[trigger] boards[k]).id, boards[k].owner_id)
            == Some(BoardRole::Owner)
}

/// A card is attached to a board at most once.
#[verifier::opaque]
pub open spec fn lanes_ok(t: Table<CardBoardAssignment>) -> bool {
    forall|a: Id, b: Id|
        #![trigger t.get(a), t.get(b)]
        t.has(a) && t.has(b) && a != b ==> !(t.get(a).card_id == t.get(b).card_id && t.get(
            a,
        ).board_id == t.get(b).board_id)
}

/// No two tags share an identifier, and every tag belongs either to a board or to
/// a user.
#[verifier::opaque]
pub open spec fn tags_ok(tags: Seq<Tag>) -> bool {
    &&& forall|i: int, j: int|
        0 <= i < j < tags.len() ==> (#[trigger] tags[i]).id != (#[trigger] tags[j]).id
    &&& forall|k: int| 0 <= k < tags.len() ==> (#[trigger] tags[k]).scoped()
}

/// All records of the task board.
pub struct Store {
    pub(crate) boards: Vec<Board>,
    pub(crate) permissions: Vec<BoardPermission>,
    pub(crate) columns: Table<Column>,
    pub(crate) cards: Table<Card>,
    pub(crate) assignments: Table<CardBoardAssignment>,
    pub(crate) tags: Vec<Tag>,
    pub(crate) card_tags: Vec<CardTag>,
}

impl Store {
    /// The boards, the most recently changed first.
    pub open(crate) spec fn boards(&self) -> Seq<Board> {
        self.boards@
    }

    /// The roles that users hold on boards.
    pub open(crate) spec fn permissions(&self) -> Seq<BoardPermission> {
        self.permissions@
    }

    /// The columns; the columns of board `b` stand in `Container::Board(b)`.
    pub open(crate) spec fn columns(&self) -> Table<Column> {
        self.columns
    }

    /// The cards; the cards of column `c` stand in `Container::Column(c)`, those
    /// without a column in the `Container::Inbox` of their creator.
    pub open(crate) spec fn cards(&self) -> Table<Card> {
        self.cards
    }

    /// The attachments of cards to boards; those of board `b` stand in
    /// `Container::Lane(b, column)`.
    pub open(crate) spec fn assignments(&self) -> Table<CardBoardAssignment> {
        self.assignments
    }

    /// The tags, in the order of their creation.
    pub open(crate) spec fn tags(&self) -> Seq<Tag> {
        self.tags@
    }

    /// Which card carries which tag.
    pub open(crate) spec fn card_tags(&self) -> Seq<CardTag> {
        self.card_tags@
    }

    /// The role that `user` holds on `board`, if any.
    pub open spec fn role(&self, board: Id, user: Id) -> Option<BoardRole> {
        role_in(self.permissions(), board, user)
    }

    /// The board `id`, where there is one.
    pub open spec fn board(&self, id: Id) -> Board {
        self.boards()[board_row(self.boards(), id)]
    }

    /// The tag `id`, where there is one.
    pub open spec fn tag(&self, id: Id) -> Tag {
        self.tags()[tag_row(self.tags(), id)]
    }

    /// The store is valid when each of its tables is, no two records of a kind
    /// share an identifier, every board has exactly one owner, who is the user the
    /// board names as such, every role is held on an existing board, at most once
    /// per user, a card is attached to a board at most once, every tag belongs
    /// either to a board or to a user, and no card carries a tag twice.
    pub open spec fn wf(&self) -> bool {
        &&& self.columns().wf()
        &&& self.cards().wf()
        &&& self.assignments().wf()
        &&& boards_ok(self.boards(), self.permissions())
        &&& lanes_ok(self.assignments())
        &&& tags_ok(self.tags())
        &&& self.card_tags().no_duplicates()
    }

    /// The columns, cards, attachments and tags are those of `other`.
    pub open spec fn same_records(&self, other: &Store) -> bool {
        &&& self.columns() == other.columns()
        &&& self.cards() == other.cards()
        &&& self.assignments() == other.assignments()
        &&& self.tags() == other.tags()
        &&& self.card_tags() == other.card_tags()
    }

    /// Everything but the columns is as in `other`.
    pub open spec fn same_but_columns(&self, other: &Store) -> bool {
        &&& self.same_boards(other)
        &&& self.cards() == other.cards()
        &&& self.assignments() == other.assignments()
        &&& self.tags() == other.tags()
        &&& self.card_tags() == other.card_tags()
    }

    /// Everything but the cards is as in `other`.
    pub open spec fn same_but_cards(&self, other: &Store) -> bool {
        &&& self.same_boards(other)
        &&& self.columns() == other.columns()
        &&& self.assignments() == other.assignments()
        &&& self.tags() == other.tags()
        &&& self.card_tags() == other.card_tags()
    }

    /// Everything but the attachments is as in `other`.
    pub open spec fn same_but_assignments(&self, other: &Store) -> bool {
        &&& self.same_boards(other)
        &&& self.columns() == other.columns()
        &&& self.cards() == other.cards()
        &&& self.tags() == other.tags()
        &&& self.card_tags() == other.card_tags()
    }

    /// Everything but the tags is as in `other`.
    pub open spec fn same_but_tags(&self, other: &Store) -> bool {
        &&& self.same_boards(other)
        &&& self.columns() == other.columns()
        &&& self.cards() == other.cards()
        &&& self.assignments() == other.assignments()
        &&& self.card_tags() == other.card_tags()
    }

    /// Everything but which card carries which tag is as in `other`.
    pub open spec fn same_but_card_tags(&self, other: &Store) -> bool {
        &&& self.same_boards(other)
        &&& self.columns() == other.columns()
        &&& self.cards() == other.cards()
        &&& self.assignments() == other.assignments()
        &&& self.tags() == other.tags()
    }

    /// The boards and the roles on them are those of `other`.
    pub open spec fn same_boards(&self, other: &Store) -> bool {
        &&& self.boards() == other.boards()
        &&& self.permissions() == other.permissions()
    }

    /// The boards, the most recently changed first.
    pub fn all_boards(&self) -> (list: &Vec<Board>)
        ensures
            list@ == self.boards(),
    {
        &self.boards
    }

    /// The roles that users hold on boards.
    pub fn all_permissions(&self) -> (list: &Vec<BoardPermission>)
        ensures
            list@ == self.permissions(),
    {
        &self.permissions
    }

    /// The columns, with their places.
    pub fn column_table(&self) -> (table: &Table<Column>)
        ensures
            *table == self.columns(),
    {
        &self.columns
    }

    /// The cards, with their places.
    pub fn card_table(&self) -> (table: &Table<Card>)
        ensures
            *table == self.cards(),
    {
        &self.cards
    }

    /// The attachments of cards to boards, with their places.
    pub fn assignment_table(&self) -> (table: &Table<CardBoardAssignment>)
        ensures
            *table == self.assignments(),
    {
        &self.assignments
    }

    /// The tags, in the order of their creation.
    pub fn all_tags(&self) -> (list: &Vec<Tag>)
        ensures
            list@ == self.tags(),
    {
        &self.tags
    }

    /// Which card carries which tag.
    pub fn all_card_tags(&self) -> (list: &Vec<CardTag>)
        ensures
            list@ == self.card_tags(),
    {
        &self.card_tags
    }

    /// An empty store.
    pub fn new() -> (store: Store)
        ensures
            store.wf(),
            store.boards() == Seq::<Board>::empty(),
            store.permissions() == Seq::<BoardPermission>::empty(),
            store.columns().rows() == Seq::<Column>::empty(),
            store.cards().rows() == Seq::<Card>::empty(),
            store.assignments().rows() == Seq::<CardBoardAssignment>::empty(),
            store.tags() == Seq::<Tag>::empty(),
            store.card_tags() == Seq::<CardTag>::empty(),
    {
        proof {
            reveal(boards_ok);
            reveal(lanes_ok);
            reveal(tags_ok);
        }
        Store {
            boards: Vec::new(),
            permissions: Vec::new(),
            columns: Table::new(),
            cards: Table::new(),
            assignments: Table::new(),
            tags: Vec::new(),
            card_tags: Vec::new(),
        }
    }
}

} // verus!
