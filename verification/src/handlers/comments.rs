//! Who may read and write the comments on a card.
use crate::access::{may_edit_card, may_view_card};
use crate::error::{AppError, AppErrorView};
use crate::handlers::boards::refused;
use crate::position::Id;
use crate::store::Store;
use crate::text::{trim_of, trimmed};
use vstd::prelude::*;
use vstd::string::*;

verus! {

/// Checks the body of a comment: it must say something besides white space.
pub fn validate_comment_body(body: &str) -> (result: Result<(), AppError>)
    ensures
        if trim_of(body@).len() == 0 {
            refused(result, AppErrorView::Validation("Comment body is required"@))
        } else {
            result is Ok
        },
{
    if trimmed(body).as_str().unicode_len() == 0 {
        return Err(AppError::Validation("Comment body is required".to_owned()));
    }
    Ok(())
}

/// Check if user has view access to a card.
pub fn can_view_card(store: &Store, card: Id, user: Id) -> (result: Result<bool, AppError>)
    requires
        store.wf(),
    ensures
        if !store.cards().has(card) {
            refused(result, AppErrorView::NotFound)
        } else {
            result == Ok::<bool, AppError>(
                may_view_card(store.cards().get(card), store.card_roles(card, user), user),
            )
        },
{
    match store.find_card(card) {
        None => Err(AppError::NotFound),
        Some(found) => {
            let roles = store.roles_on_card(card, user);
            Ok(crate::access::can_view_card(found, &roles, user))
        },
    }
}

/// Check if user has edit access to a card (required for adding comments).
pub fn can_edit_card(store: &Store, card: Id, user: Id) -> (result: Result<bool, AppError>)
    requires
        store.wf(),
    ensures
        if !store.cards().has(card) {
            refused(result, AppErrorView::NotFound)
        } else {
            result == Ok::<bool, AppError>(
                may_edit_card(store.cards().get(card), store.card_roles(card, user), user),
            )
        },
{
    match store.find_card(card) {
        None => Err(AppError::NotFound),
        Some(found) => {
            let roles = store.roles_on_card(card, user);
            Ok(crate::access::can_edit_card(found, &roles, user))
        },
    }
}

} // verus!
