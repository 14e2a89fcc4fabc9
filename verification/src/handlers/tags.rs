//! Requests on tags.
use crate::access::{can_edit, holds_card, may_edit};
use crate::error::{refusal, refuse, AppError, AppErrorView};
use crate::executor::default_color;
use crate::handlers::boards::{board_tags, list_board_tags, refused};
use crate::models::tag::{CreateTag, Tag, UpdateTag};
use crate::position::Id;
use crate::store::{has_board, has_tag, tagged, Store, StoreError};
use vstd::prelude::*;
use vstd::string::*;

verus! {

/// Whether `user` may change or delete the tag: a tag of a board asks for the
/// right to edit the board, a tag of a user for being that user.
pub open spec fn may_change_tag(store: &Store, tag: Tag, user: Id) -> bool {
    match tag.board_id {
        Some(board) => may_edit(store.role(board, user)),
        None => tag.owner_id == Some(user),
    }
}

/// Whether `user` may change or delete the tag.
pub fn can_change_tag(store: &Store, tag: &Tag, user: Id) -> (allowed: bool)
    requires
        store.wf(),
    ensures
        allowed == may_change_tag(store, *tag, user),
{
    match tag.board_id {
        Some(board) => can_edit(store.get_user_role(board, user)),
        None => match tag.owner_id {
            Some(owner) => owner == user,
            None => false,
        },
    }
}

/// The colour that a request asks for, grey where it asks for none.
pub open spec fn color_or_default(color: Option<String>) -> Seq<char> {
    match color {
        Some(c) => c@,
        None => default_color(),
    }
}

/// Creates a tag of a board, for a user who may edit the board. A tag needs a
/// name; without a colour it is grey.
pub fn create_tag(store: &mut Store, user: Id, board: Id, new_id: Id, input: CreateTag) -> (result:
    Result<Id, AppError>)
    requires
        old(store).wf(),
    ensures
        final(store).wf(),
        if !may_edit(old(store).role(board, user)) {
            refused(result, AppErrorView::Forbidden) && *final(store) == *old(store)
        } else if input.name@.len() == 0 {
            refused(result, AppErrorView::Validation("Tag name is required"@)) && *final(store)
                == *old(store)
        } else if !has_board(old(store).boards(), board) {
            refused(result, AppErrorView::NotFound) && *final(store) == *old(store)
        } else if has_tag(old(store).tags(), new_id) {
            refused(result, refusal(StoreError::DuplicateId)) && *final(store) == *old(store)
        } else {
            &&& result == Ok::<Id, AppError>(new_id)
            &&& final(store).tag_created(
                old(store),
                new_id,
                board,
                input.name@,
                color_or_default(input.color),
            )
        },
{
    if !can_edit(store.get_user_role(board, user)) {
        return Err(AppError::Forbidden);
    }
    if input.name.as_str().unicode_len() == 0 {
        return Err(AppError::Validation("Tag name is required".to_owned()));
    }
    let color = match input.color {
        Some(c) => c,
        None => "#6c757d".to_owned(),
    };
    match store.create_tag(new_id, board, input.name.as_str(), color.as_str()) {
        Err(e) => Err(refuse(e)),
        Ok(()) => Ok(new_id),
    }
}

/// The tags of a board in the order of their creation, for a user who holds a
/// role on the board.
pub fn list_tags(store: &Store, user: Id, board: Id) -> (result: Result<Vec<Id>, AppError>)
    requires
        store.wf(),
    ensures
        if store.role(board, user) is None {
            refused(result, AppErrorView::Forbidden)
        } else {
            result matches Ok(ids) && ids@ == board_tags(store.tags(), board)
        },
{
    if store.get_user_role(board, user).is_none() {
        return Err(AppError::Forbidden);
    }
    Ok(list_board_tags(store, board))
}

/// Changes the name, the colour, or both of a tag, for a user who may change it.
pub fn update_tag(store: &mut Store, user: Id, tag: Id, input: UpdateTag) -> (result: Result<
    (),
    AppError,
>)
    requires
        old(store).wf(),
    ensures
        final(store).wf(),
        if !has_tag(old(store).tags(), tag) {
            refused(result, AppErrorView::NotFound) && *final(store) == *old(store)
        } else if !may_change_tag(old(store), old(store).tag(tag), user) {
            refused(result, AppErrorView::Forbidden) && *final(store) == *old(store)
        } else {
            &&& result is Ok
            &&& final(store).same_but_tags(old(store))
            &&& final(store).tags().len() == old(store).tags().len()
            &&& forall|k: int|
                0 <= k < old(store).tags().len() && k != crate::store::tag_row(
                    old(store).tags(),
                    tag,
                ) ==> #[trigger] final(store).tags()[k] == old(store).tags()[k]
            &&& final(store).tag(tag).id == tag
            &&& final(store).tag(tag).board_id == old(store).tag(tag).board_id
            &&& final(store).tag(tag).owner_id == old(store).tag(tag).owner_id
            &&& final(store).tag(tag).name@ == (match input.name {
                Some(n) => n@,
                None => old(store).tag(tag).name@,
            })
            &&& final(store).tag(tag).color@ == (match input.color {
                Some(c) => c@,
                None => old(store).tag(tag).color@,
            })
        },
{
    match store.find_tag(tag) {
        None => {
            return Err(AppError::NotFound);
        },
        Some(found) => {
            if !can_change_tag(store, found, user) {
                return Err(AppError::Forbidden);
            }
        },
    }
    let name = match &input.name {
        Some(n) => Some(n.as_str()),
        None => None,
    };
    let color = match &input.color {
        Some(c) => Some(c.as_str()),
        None => None,
    };
    match store.update_tag(tag, name, color) {
        Err(e) => Err(refuse(e)),
        Ok(()) => Ok(()),
    }
}

/// Deletes a tag and takes it off every card, for a user who may change it.
pub fn delete_tag(store: &mut Store, user: Id, tag: Id) -> (result: Result<(), AppError>)
    requires
        old(store).wf(),
    ensures
        final(store).wf(),
        if !has_tag(old(store).tags(), tag) {
            refused(result, AppErrorView::NotFound) && *final(store) == *old(store)
        } else if !may_change_tag(old(store), old(store).tag(tag), user) {
            refused(result, AppErrorView::Forbidden) && *final(store) == *old(store)
        } else {
            result is Ok && final(store).tag_deleted(old(store), tag)
        },
{
    match store.find_tag(tag) {
        None => {
            return Err(AppError::NotFound);
        },
        Some(found) => {
            if !can_change_tag(store, found, user) {
                return Err(AppError::Forbidden);
            }
        },
    }
    match store.delete_tag(tag) {
        Err(e) => Err(refuse(e)),
        Ok(()) => Ok(()),
    }
}

/// Why `user` may not put the tag on the card, if so. A tag of a board goes on
/// the cards of that board only, and asks for the right to edit the board. A tag
/// of a user is put on by that user only: on a card of a board with the right to
/// edit the board, on a card without a column as its owner or its creator.
pub open spec fn tagging_refused(store: &Store, user: Id, card: Id, tag: Id) -> Option<
    AppErrorView,
> {
    let home = store.home_board(card);
    if !has_tag(store.tags(), tag) {
        Some(AppErrorView::NotFound)
    } else {
        match (store.tag(tag).board_id, store.tag(tag).owner_id) {
            (Some(tag_board), _) => match home {
                None => Some(
                    AppErrorView::BadRequest("Cannot add board tag to a standalone card"@),
                ),
                Some(card_board) => if tag_board != card_board {
                    Some(AppErrorView::BadRequest("Tag does not belong to this board"@))
                } else if !may_edit(store.role(card_board, user)) {
                    Some(AppErrorView::Forbidden)
                } else {
                    None
                },
            },
            (None, Some(owner)) => match home {
                Some(card_board) => if owner == user && may_edit(store.role(card_board, user)) {
                    None
                } else {
                    Some(AppErrorView::Forbidden)
                },
                None => if !store.cards().has(card) {
                    Some(AppErrorView::NotFound)
                } else if owner == user && holds_card(store.cards().get(card), user) {
                    None
                } else {
                    Some(AppErrorView::Forbidden)
                },
            },
            (None, None) => Some(AppErrorView::Forbidden),
        }
    }
}

/// Puts a tag on a card, for a user who may: see `tagging_refused`. A card that
/// carries the tag already is left as it is.
pub fn add_tag_to_card(store: &mut Store, user: Id, card: Id, tag: Id) -> (result: Result<
    (),
    AppError,
>)
    requires
        old(store).wf(),
    ensures
        final(store).wf(),
        match tagging_refused(old(store), user, card, tag) {
            Some(e) => refused(result, e) && *final(store) == *old(store),
            None => result is Ok && final(store).tag_put_on(old(store), card, tag),
        },
{
    let (tag_board, tag_owner) = match store.find_tag(tag) {
        None => {
            return Err(AppError::NotFound);
        },
        Some(found) => (found.board_id, found.owner_id),
    };
    let home = store.get_board_id_for_card(card);
    match tag_board {
        Some(tag_board) => match home {
            None => {
                return Err(
                    AppError::BadRequest("Cannot add board tag to a standalone card".to_owned()),
                );
            },
            Some(card_board) => {
                if tag_board != card_board {
                    return Err(
                        AppError::BadRequest("Tag does not belong to this board".to_owned()),
                    );
                }
                if !can_edit(store.get_user_role(card_board, user)) {
                    return Err(AppError::Forbidden);
                }
            },
        },
        None => match tag_owner {
            None => {
                return Err(AppError::Forbidden);
            },
            Some(owner) => {
                let may_use: bool = owner == user;
                let may_touch: bool = match home {
                    Some(card_board) => can_edit(store.get_user_role(card_board, user)),
                    None => match store.find_card(card) {
                        None => {
                            return Err(AppError::NotFound);
                        },
                        Some(found) => found.owner_id == Some(user) || found.created_by == user,
                    },
                };
                if !may_use || !may_touch {
                    return Err(AppError::Forbidden);
                }
            },
        },
    }
    match store.add_tag_to_card(card, tag) {
        Err(e) => Err(refuse(e)),
        Ok(()) => Ok(()),
    }
}

/// Why `user` may not take a tag off the card, if so: a card of a board asks for
/// the right to edit the board, a card without a column for its owner or its
/// creator.
pub open spec fn untagging_refused(store: &Store, user: Id, card: Id, tag: Id) -> Option<
    AppErrorView,
> {
    if !store.cards().has(card) {
        Some(AppErrorView::NotFound)
    } else {
        let allowed = match store.home_board(card) {
            Some(board) => may_edit(store.role(board, user)),
            None => holds_card(store.cards().get(card), user),
        };
        if !allowed {
            Some(AppErrorView::Forbidden)
        } else if !tagged(store.card_tags(), card, tag) {
            Some(AppErrorView::NotFound)
        } else {
            None
        }
    }
}

/// Takes a tag off a card, for a user who may: see `untagging_refused`.
pub fn remove_tag_from_card(store: &mut Store, user: Id, card: Id, tag: Id) -> (result: Result<
    (),
    AppError,
>)
    requires
        old(store).wf(),
    ensures
        final(store).wf(),
        match untagging_refused(old(store), user, card, tag) {
            Some(e) => refused(result, e) && *final(store) == *old(store),
            None => {
                &&& result is Ok
                &&& final(store).same_but_card_tags(old(store))
                &&& final(store).card_tags() == old(store).card_tags().filter(
                    |ct: crate::models::tag::CardTag|
                        ct != (crate::models::tag::CardTag { card_id: card, tag_id: tag }),
                )
            },
        },
{
    let found = match store.find_card(card) {
        None => {
            return Err(AppError::NotFound);
        },
        Some(found) => found,
    };
    let allowed = match store.get_board_id_for_card(card) {
        Some(board) => can_edit(store.get_user_role(board, user)),
        None => found.owner_id == Some(user) || found.created_by == user,
    };
    if !allowed {
        return Err(AppError::Forbidden);
    }
    match store.remove_tag_from_card(card, tag) {
        Err(e) => Err(refuse(e)),
        Ok(()) => Ok(()),
    }
}

} // verus!
