//! The access policy: who may do what.
//!
//! A user relates to a board through a role, or not at all. A user relates to a
//! card as its owner or its creator, or through the roles held on the boards that
//! the card is on.
use crate::models::board::BoardRole;
use crate::models::card::{Card, CardVisibility};
use crate::position::Id;
use crate::text::{lower, lowercase, same_text};
use vstd::prelude::*;

verus! {

/// Whether a role, or none, allows changing what is on a board.
pub open spec fn may_edit(role: Option<BoardRole>) -> bool {
    role == Some(BoardRole::Owner) || role == Some(BoardRole::Editor)
}

/// Whether a role, or none, allows deleting the board.
pub open spec fn may_delete_board(role: Option<BoardRole>) -> bool {
    role == Some(BoardRole::Owner)
}

/// Whether a role, or none, allows granting and withdrawing roles.
pub open spec fn may_manage_permissions(role: Option<BoardRole>) -> bool {
    role == Some(BoardRole::Owner)
}

/// The user is the owner or the creator of the card.
pub open spec fn holds_card(card: Card, user: Id) -> bool {
    card.owner_id == Some(user) || card.created_by == user
}

/// Some role in the list allows editing.
pub open spec fn some_may_edit(roles: Seq<Option<BoardRole>>) -> bool {
    exists|k: int| 0 <= k < roles.len() && may_edit(#[trigger] roles[k])
}

/// Some entry in the list is a role.
pub open spec fn some_role(roles: Seq<Option<BoardRole>>) -> bool {
    exists|k: int| 0 <= k < roles.len() && (#[trigger] roles[k]) is Some
}

/// Whether `viewer` may see `card`, given the role held on each board that the
/// card is on (`None` where the viewer holds none). The owner and the creator
/// always may. Anyone else needs a board: on a card that is on no board there is
/// nothing to fall back on. With a board, a private card asks for edit rights on
/// one of the boards, a restricted card for any role on one of them, and a public
/// card for nothing.
pub open spec fn may_view_card(card: Card, roles: Seq<Option<BoardRole>>, viewer: Id) -> bool {
    holds_card(card, viewer) || (roles.len() > 0 && match card.visibility {
        CardVisibility::Private => some_may_edit(roles),
        CardVisibility::Restricted => some_role(roles),
        CardVisibility::Public => true,
    })
}

/// Whether `viewer` may change `card`, given the role held on each board that the
/// card is on: the owner and the creator may, and so may whoever has edit rights
/// on one of the boards.
pub open spec fn may_edit_card(card: Card, roles: Seq<Option<BoardRole>>, viewer: Id) -> bool {
    holds_card(card, viewer) || some_may_edit(roles)
}

/// Whether a role, or none, allows changing what is on a board: owners and editors
/// may, readers and strangers may not.
pub fn can_edit(role: Option<BoardRole>) -> (allowed: bool)
    ensures
        allowed == may_edit(role),
{
    match role {
        Some(r) => r.can_edit(),
        None => false,
    }
}

/// Whether a role, or none, allows deleting the board: only the owner may.
pub fn can_delete_board(role: Option<BoardRole>) -> (allowed: bool)
    ensures
        allowed == may_delete_board(role),
{
    match role {
        Some(r) => r.can_delete(),
        None => false,
    }
}

/// Whether a role, or none, allows granting and withdrawing roles: only the owner
/// may.
pub fn can_manage_permissions(role: Option<BoardRole>) -> (allowed: bool)
    ensures
        allowed == may_manage_permissions(role),
{
    match role {
        Some(r) => r.can_manage_permissions(),
        None => false,
    }
}

/// Check if a role string allows editing.
pub fn role_can_edit(role: &str) -> (allowed: bool)
    ensures
        allowed == may_edit(BoardRole::named(lowercase(role@))),
{
    let low = lower(role);
    same_text(low.as_str(), "owner") || same_text(low.as_str(), "editor")
}

/// Whether some role in the list allows editing.
pub fn any_can_edit(roles: &Vec<Option<BoardRole>>) -> (found: bool)
    ensures
        found == some_may_edit(roles@),
{
    let mut i: usize = 0;
    while i < roles.len()
        invariant
            i <= roles.len(),
            forall|k: int| 0 <= k < i ==> !may_edit(#[trigger] roles@[k]),
        decreases roles.len() - i,
    {
        if can_edit(roles[i]) {
            return true;
        }
        i += 1;
    }
    false
}

/// Whether some entry in the list is a role.
pub fn any_role(roles: &Vec<Option<BoardRole>>) -> (found: bool)
    ensures
        found == some_role(roles@),
{
    let mut i: usize = 0;
    while i < roles.len()
        invariant
            i <= roles.len(),
            forall|k: int| 0 <= k < i ==> (#[trigger] roles@[k]) is None,
        decreases roles.len() - i,
    {
        if roles[i].is_some() {
            return true;
        }
        i += 1;
    }
    false
}

/// Whether `viewer` may see `card`; `roles` holds the viewer's role on each board
/// that the card is on.
pub fn can_view_card(card: &Card, roles: &Vec<Option<BoardRole>>, viewer: Id) -> (allowed: bool)
    ensures
        allowed == may_view_card(*card, roles@, viewer),
{
    if card.owner_id == Some(viewer) || card.created_by == viewer {
        return true;
    }
    if roles.len() == 0 {
        return false;
    }
    match card.visibility {
        CardVisibility::Private => any_can_edit(roles),
        CardVisibility::Restricted => any_role(roles),
        CardVisibility::Public => true,
    }
}

/// Whether `viewer` may change `card`; `roles` holds the viewer's role on each
/// board that the card is on.
pub fn can_edit_card(card: &Card, roles: &Vec<Option<BoardRole>>, viewer: Id) -> (allowed: bool)
    ensures
        allowed == may_edit_card(*card, roles@, viewer),
{
    if card.owner_id == Some(viewer) || card.created_by == viewer {
        return true;
    }
    any_can_edit(roles)
}

/// The owner can do whatever any role can: a right that some role has on a board,
/// the owner has too.
pub proof fn law_owner_has_every_right(role: BoardRole)
    ensures
        role.can_edit() ==> BoardRole::Owner.can_edit(),
        role.can_delete() ==> BoardRole::Owner.can_delete(),
        role.can_manage_permissions() ==> BoardRole::Owner.can_manage_permissions(),
        may_edit(Some(role)) ==> may_edit(Some(BoardRole::Owner)),
        may_delete_board(Some(role)) ==> may_delete_board(Some(BoardRole::Owner)),
        may_manage_permissions(Some(role)) ==> may_manage_permissions(Some(BoardRole::Owner)),
{
}

/// What a user may do to a card with some role on one of its boards, the user may
/// do with the owner's role there instead.
pub proof fn law_owner_role_keeps_card_rights(
    card: Card,
    roles: Seq<Option<BoardRole>>,
    k: int,
    viewer: Id,
)
    requires
        0 <= k < roles.len(),
    ensures
        may_edit_card(card, roles, viewer) ==> may_edit_card(
            card,
            roles.update(k, Some(BoardRole::Owner)),
            viewer,
        ),
        may_view_card(card, roles, viewer) ==> may_view_card(
            card,
            roles.update(k, Some(BoardRole::Owner)),
            viewer,
        ),
{
    let raised = roles.update(k, Some(BoardRole::Owner));
    assert(may_edit(raised[k]));
    assert(raised[k] is Some);
}

} // verus!
