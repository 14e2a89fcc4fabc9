//! Comments on cards.
use crate::position::Id;
use vstd::prelude::*;

verus! {

/// A comment that a user left on a card.
#[derive(Clone, Debug, PartialEq, Eq)]
pub struct Comment {
    pub id: Id,
    pub card_id: Id,
    pub user_id: Id,
    pub body: String,
}

/// A request to comment on a card.
#[derive(Clone, Debug, PartialEq, Eq)]
pub struct CreateComment {
    pub body: String,
}

/// A request to reword a comment.
#[derive(Clone, Debug, PartialEq, Eq)]
pub struct UpdateComment {
    pub body: String,
}

} // verus!
