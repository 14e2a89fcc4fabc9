//! Requests on the cards that a user holds, and on their place on boards.
use crate::access::{can_edit, can_edit_card, holds_card, may_edit, may_edit_card};
use crate::error::{refusal, refuse, AppError, AppErrorView};
use crate::handlers::boards::refused;
use crate::handlers::tags::color_or_default;
use crate::models::card::{
    AssignCardToBoard, Card, CardBoardAssignment, CardStatus, CardVisibility, CreateGlobalCard,
    MoveCardInBoard, UpdateCardStatus,
};
use crate::models::tag::{CreateGlobalTag, Tag};
use crate::position::{Container, Id};
use crate::store::{attachment, has_tag, Store, StoreError};
use crate::text::{lowercase, plain_of};
use vstd::prelude::*;
use vstd::string::*;

verus! {

/// Query parameters for listing cards.
#[derive(Clone, Debug, PartialEq, Eq)]
pub struct ListCardsQuery {
    pub status: Option<String>,
}

/// The status that a query asks for; text that names no status asks for none.
pub open spec fn asked_status(query: ListCardsQuery) -> Option<CardStatus> {
    match query.status {
        Some(s) => CardStatus::named(plain_of(lowercase(s@))),
        None => None,
    }
}

/// The standalone card that `create_card` makes of a request.
pub open spec fn standalone_of(input: CreateGlobalCard, id: Id, user: Id) -> Card {
    Card {
        id,
        title: input.title,
        body: input.body,
        visibility: match input.visibility {
            Some(v) => v,
            None => CardVisibility::Private,
        },
        status: match input.status {
            Some(s) => s,
            None => CardStatus::Open,
        },
        start_date: input.start_date,
        end_date: input.end_date,
        due_date: input.due_date,
        owner_id: Some(user),
        created_by: user,
    }
}

/// List all cards owned by the current user.
pub fn list_cards(store: &Store, user: Id, query: &ListCardsQuery) -> (cards: Vec<Id>)
    ensures
        cards@ == store.held_by(user, asked_status(*query)),
{
    let status = match &query.status {
        Some(s) => match CardStatus::from_str(s.as_str()) {
            Ok(status) => Some(status),
            Err(_) => None,
        },
        None => None,
    };
    store.list_by_owner_with_status(user, status)
}

/// Create a standalone (global) card. A card needs a title; it is private and
/// open unless the request says otherwise, and it belongs to its creator.
pub fn create_card(store: &mut Store, user: Id, new_id: Id, input: CreateGlobalCard) -> (result:
    Result<Id, AppError>)
    requires
        old(store).wf(),
    ensures
        final(store).wf(),
        if input.title@.len() == 0 {
            refused(result, AppErrorView::Validation("Card title is required"@)) && *final(store)
                == *old(store)
        } else {
            match old(store).cards().insert_verdict(new_id, Container::Inbox(user), None) {
                Err(e) => refused(result, refusal(crate::store::store_error(e))) && *final(store)
                    == *old(store),
                Ok(p) => {
                    &&& result == Ok::<Id, AppError>(new_id)
                    &&& final(store).same_but_cards(old(store))
                    &&& final(store).cards().inserted(
                        &old(store).cards(),
                        standalone_of(input, new_id, user),
                        Container::Inbox(user),
                        p as int,
                    )
                },
            }
        },
{
    if input.title.as_str().unicode_len() == 0 {
        return Err(AppError::Validation("Card title is required".to_owned()));
    }
    let card = Card {
        id: new_id,
        title: input.title,
        body: input.body,
        visibility: match input.visibility {
            Some(v) => v,
            None => CardVisibility::Private,
        },
        status: match input.status {
            Some(s) => s,
            None => CardStatus::Open,
        },
        start_date: input.start_date,
        end_date: input.end_date,
        due_date: input.due_date,
        owner_id: Some(user),
        created_by: user,
    };
    match store.create_standalone(card) {
        Err(e) => Err(refuse(e)),
        Ok(()) => Ok(new_id),
    }
}

/// Update card status only, for a user who may edit the card.
pub fn update_card_status(store: &mut Store, user: Id, card: Id, input: UpdateCardStatus) -> (result:
    Result<(), AppError>)
    requires
        old(store).wf(),
    ensures
        final(store).wf(),
        if !old(store).cards().has(card) {
            refused(result, AppErrorView::NotFound) && *final(store) == *old(store)
        } else if !may_edit_card(
            old(store).cards().get(card),
            old(store).card_roles(card, user),
            user,
        ) {
            refused(result, AppErrorView::Forbidden) && *final(store) == *old(store)
        } else {
            &&& result is Ok
            &&& final(store).same_but_cards(old(store))
            &&& final(store).cards().replaced(
                &old(store).cards(),
                Card { status: input.status, ..old(store).cards().get(card) },
            )
        },
{
    match store.find_card(card) {
        None => {
            return Err(AppError::NotFound);
        },
        Some(found) => {
            let roles = store.roles_on_card(card, user);
            if !can_edit_card(found, &roles, user) {
                return Err(AppError::Forbidden);
            }
        },
    }
    match store.update_status(card, input.status) {
        Err(e) => Err(refuse(e)),
        Ok(()) => Ok(()),
    }
}

/// Whether `user` may attach the card to the board or detach it: as the owner or
/// the creator of the card, or with the right to edit the board.
pub open spec fn may_place(store: &Store, user: Id, card: Id, board: Id) -> bool {
    holds_card(store.cards().get(card), user) || may_edit(store.role(board, user))
}

/// Assign a card to a board, in one of its columns or in none.
pub fn assign_card_to_board(
    store: &mut Store,
    user: Id,
    card: Id,
    board: Id,
    new_id: Id,
    input: AssignCardToBoard,
) -> (result: Result<i32, AppError>)
    requires
        old(store).wf(),
    ensures
        final(store).wf(),
        if !old(store).cards().has(card) {
            refused(result, AppErrorView::NotFound) && *final(store) == *old(store)
        } else if !may_place(old(store), user, card, board) {
            refused(result, AppErrorView::Forbidden) && *final(store) == *old(store)
        } else {
            match old(store).assign_verdict(new_id, card, board, input.column_id, input.position) {
                Err(e) => refused(result, refusal(e)) && *final(store) == *old(store),
                Ok(p) => {
                    &&& result == Ok::<i32, AppError>(p)
                    &&& final(store).same_but_assignments(old(store))
                    &&& final(store).assignments().inserted(
                        &old(store).assignments(),
                        CardBoardAssignment { id: new_id, card_id: card, board_id: board },
                        Container::Lane(board, input.column_id),
                        p as int,
                    )
                },
            }
        },
{
    match store.find_card(card) {
        None => {
            return Err(AppError::NotFound);
        },
        Some(found) => {
            let mine: bool = found.owner_id == Some(user) || found.created_by == user;
            if !mine && !can_edit(store.get_user_role(board, user)) {
                return Err(AppError::Forbidden);
            }
        },
    }
    match store.assign_card_to_board(new_id, card, board, input.column_id, input.position) {
        Err(e) => Err(refuse(e)),
        Ok(p) => Ok(p),
    }
}

/// Remove a card from a board (does not delete the card).
pub fn remove_card_from_board(store: &mut Store, user: Id, card: Id, board: Id) -> (result: Result<
    (),
    AppError,
>)
    requires
        old(store).wf(),
    ensures
        final(store).wf(),
        if !old(store).cards().has(card) {
            refused(result, AppErrorView::NotFound) && *final(store) == *old(store)
        } else if !may_place(old(store), user, card, board) {
            refused(result, AppErrorView::Forbidden) && *final(store) == *old(store)
        } else if !crate::store::attached(old(store).assignments(), card, board) {
            refused(result, AppErrorView::NotFound) && *final(store) == *old(store)
        } else {
            &&& result is Ok
            &&& final(store).same_but_assignments(old(store))
            &&& final(store).assignments().removed(
                &old(store).assignments(),
                attachment(old(store).assignments(), card, board),
            )
        },
{
    match store.find_card(card) {
        None => {
            return Err(AppError::NotFound);
        },
        Some(found) => {
            let mine: bool = found.owner_id == Some(user) || found.created_by == user;
            if !mine && !can_edit(store.get_user_role(board, user)) {
                return Err(AppError::Forbidden);
            }
        },
    }
    match store.remove_card_from_board(card, board) {
        Err(e) => Err(refuse(e)),
        Ok(()) => Ok(()),
    }
}

/// Move a card within a board (change column/position), for a user who may edit
/// the board.
pub fn move_card_in_board(store: &mut Store, user: Id, card: Id, board: Id, input: MoveCardInBoard) -> (result:
    Result<i32, AppError>)
    requires
        old(store).wf(),
    ensures
        final(store).wf(),
        if !may_edit(old(store).role(board, user)) {
            refused(result, AppErrorView::Forbidden) && *final(store) == *old(store)
        } else {
            match old(store).move_in_board_verdict(card, board, input.column_id, input.position) {
                Err(e) => refused(result, refusal(e)) && *final(store) == *old(store),
                Ok(p) => {
                    &&& result == Ok::<i32, AppError>(p)
                    &&& p == input.position
                    &&& final(store).same_but_assignments(old(store))
                    &&& final(store).assignments().moved_to(
                        &old(store).assignments(),
                        attachment(old(store).assignments(), card, board),
                        Container::Lane(board, input.column_id),
                        p as int,
                    )
                },
            }
        },
{
    if !can_edit(store.get_user_role(board, user)) {
        return Err(AppError::Forbidden);
    }
    match store.move_card_in_board(card, board, input.column_id, input.position) {
        Err(e) => Err(refuse(e)),
        Ok(p) => Ok(p),
    }
}

/// The tags of `user`, in the order of their creation.
pub open spec fn user_tags(tags: Seq<Tag>, user: Id) -> Seq<Id> {
    tags.filter(|t: Tag| t.owner_id == Some(user) && t.board_id is None).map_values(|t: Tag| t.id)
}

/// List user's global tags.
pub fn list_global_tags(store: &Store, user: Id) -> (ids: Vec<Id>)
    ensures
        ids@ == user_tags(store.tags(), user),
{
    let ghost mine = |t: Tag| t.owner_id == Some(user) && t.board_id is None;
    let ghost to_id = |t: Tag| t.id;
    let mut ids: Vec<Id> = Vec::new();
    let mut i: usize = 0;
    proof {
        reveal(Seq::filter);
        assert(store.tags().take(0) =~= Seq::<Tag>::empty());
        assert(Seq::<Tag>::empty().filter(mine).map_values(to_id) =~= Seq::<Id>::empty());
    }
    while i < store.tag_count()
        invariant
            i <= store.tags().len(),
            ids@ == user_tags(store.tags().take(i as int), user),
        decreases store.tags().len() - i,
    {
        let tag = store.tag_at(i);
        let hit = match tag.owner_id {
            Some(o) => o == user && tag.board_id.is_none(),
            None => false,
        };
        proof {
            reveal(Seq::filter);
            let mine = |t: Tag| t.owner_id == Some(user) && t.board_id is None;
            let to_id = |t: Tag| t.id;
            assert(store.tags().take(i + 1).drop_last() =~= store.tags().take(i as int));
            if hit {
                assert(store.tags().take(i + 1).filter(mine).map_values(to_id)
                    =~= store.tags().take(i as int).filter(mine).map_values(to_id).push(tag.id));
            }
        }
        if hit {
            ids.push(tag.id);
        }
        i += 1;
    }
    proof {
        assert(store.tags().take(i as int) =~= store.tags());
    }
    ids
}

/// Create a global tag. A tag needs a name; without a colour it is grey.
pub fn create_global_tag(store: &mut Store, user: Id, new_id: Id, input: CreateGlobalTag) -> (result:
    Result<Id, AppError>)
    requires
        old(store).wf(),
    ensures
        final(store).wf(),
        if input.name@.len() == 0 {
            refused(result, AppErrorView::Validation("Tag name is required"@)) && *final(store)
                == *old(store)
        } else if has_tag(old(store).tags(), new_id) {
            refused(result, refusal(StoreError::DuplicateId)) && *final(store) == *old(store)
        } else {
            &&& result == Ok::<Id, AppError>(new_id)
            &&& final(store).same_but_tags(old(store))
            &&& final(store).tags().len() == old(store).tags().len() + 1
            &&& final(store).tags().drop_last() == old(store).tags()
            &&& final(store).tags().last().id == new_id
            &&& final(store).tags().last().board_id == None::<Id>
            &&& final(store).tags().last().owner_id == Some(user)
            &&& final(store).tags().last().name@ == input.name@
            &&& final(store).tags().last().color@ == color_or_default(input.color)
        },
{
    if input.name.as_str().unicode_len() == 0 {
        return Err(AppError::Validation("Tag name is required".to_owned()));
    }
    let color = match input.color {
        Some(c) => c,
        None => "#6c757d".to_owned(),
    };
    match store.create_global_tag(new_id, user, input.name.as_str(), color.as_str()) {
        Err(e) => Err(refuse(e)),
        Ok(()) => Ok(new_id),
    }
}

} // verus!
