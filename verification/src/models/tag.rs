//! Tags.
use crate::position::Id;
use vstd::prelude::*;

verus! {

/// A tag. It belongs to a board or to a user, never to both and never to neither.
#[derive(Clone, Debug, PartialEq, Eq)]
pub struct Tag {
    pub id: Id,
    pub board_id: Option<Id>,
    pub owner_id: Option<Id>,
    pub name: String,
    pub color: String,
}

impl Tag {
    /// Exactly one of board and owner is set.
    pub open spec fn scoped(&self) -> bool {
        self.board_id is Some != self.owner_id is Some
    }
}

/// A tag on a card.
#[derive(Clone, Copy, Debug, PartialEq, Eq, Structural)]
pub struct CardTag {
    pub card_id: Id,
    pub tag_id: Id,
}

/// A request to create a tag of a board; without a colour it is grey.
#[derive(Clone, Debug, PartialEq, Eq)]
pub struct CreateTag {
    pub name: String,
    pub color: Option<String>,
}

/// A request to change a tag; what is `None` stays as it is.
#[derive(Clone, Debug, PartialEq, Eq)]
pub struct UpdateTag {
    pub name: Option<String>,
    pub color: Option<String>,
}

/// A request to create a tag of a user; without a colour it is grey.
#[derive(Clone, Debug, PartialEq, Eq)]
pub struct CreateGlobalTag {
    pub name: String,
    pub color: Option<String>,
}

} // verus!
