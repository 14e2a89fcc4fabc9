//! Requests on cards.
use crate::access::{
    can_edit, can_edit_card, can_view_card, may_edit, may_edit_card, may_view_card,
};
use crate::error::{refusal, refuse, AppError, AppErrorView};
use crate::handlers::boards::refused;
use crate::models::board::BoardRole;
use crate::models::card::{
    Card, CardFilter, CardStatus, CardVisibility, CreateCard, MoveCard, UpdateCard,
};
use crate::position::{Container, Id};
use crate::store::Store;
use vstd::prelude::*;
use vstd::string::*;

verus! {

/// The card that `create_card` makes of a request.
pub open spec fn card_of(input: CreateCard, id: Id, user: Id) -> Card {
    Card {
        id,
        title: input.title,
        body: input.body,
        visibility: match input.visibility {
            Some(v) => v,
            None => CardVisibility::Restricted,
        },
        status: match input.status {
            Some(s) => s,
            None => CardStatus::Open,
        },
        start_date: input.start_date,
        end_date: input.end_date,
        due_date: input.due_date,
        owner_id: None,
        created_by: user,
    }
}

/// The card with the changes that the request asks for; what is `None` stays.
pub open spec fn changed_is(after: Card, before: Card, input: UpdateCard) -> bool {
    &&& after.id == before.id
    &&& after.title@ == match input.title {
        Some(t) => t@,
        None => before.title@,
    }
    &&& match input.body {
        Some(b) => after.body is Some && after.body->0@ == b@,
        None => after.body == before.body,
    }
    &&& after.visibility == match input.visibility {
        Some(v) => v,
        None => before.visibility,
    }
    &&& after.status == match input.status {
        Some(s) => s,
        None => before.status,
    }
    &&& after.start_date == match input.start_date {
        Some(d) => Some(d),
        None => before.start_date,
    }
    &&& after.end_date == match input.end_date {
        Some(d) => Some(d),
        None => before.end_date,
    }
    &&& after.due_date == match input.due_date {
        Some(d) => Some(d),
        None => before.due_date,
    }
    &&& after.owner_id == before.owner_id
    &&& after.created_by == before.created_by
}

/// Adds a card to a column, for a user who may edit the board of the column. A
/// card needs a title. It is restricted and open unless the request says
/// otherwise, and without a position it goes behind the last card.
pub fn create_card(store: &mut Store, user: Id, column: Id, new_id: Id, input: CreateCard) -> (result:
    Result<i32, AppError>)
    requires
        old(store).wf(),
    ensures
        final(store).wf(),
        if !old(store).columns().has(column) {
            refused(result, AppErrorView::NotFound) && *final(store) == *old(store)
        } else if !may_edit(old(store).role(old(store).columns().get(column).board_id, user)) {
            refused(result, AppErrorView::Forbidden) && *final(store) == *old(store)
        } else if input.title@.len() == 0 {
            refused(result, AppErrorView::Validation("Card title is required"@)) && *final(store)
                == *old(store)
        } else {
            match old(store).create_card_verdict(
                card_of(input, new_id, user),
                column,
                input.position,
            ) {
                Err(e) => refused(result, refusal(e)) && *final(store) == *old(store),
                Ok(p) => {
                    &&& result == Ok::<i32, AppError>(p)
                    &&& final(store).same_but_cards(old(store))
                    &&& final(store).cards().inserted(
                        &old(store).cards(),
                        card_of(input, new_id, user),
                        Container::Column(column),
                        p as int,
                    )
                },
            }
        },
{
    let board = match store.find_column(column) {
        None => {
            return Err(AppError::NotFound);
        },
        Some(c) => c.board_id,
    };
    if !can_edit(store.get_user_role(board, user)) {
        return Err(AppError::Forbidden);
    }
    if input.title.as_str().unicode_len() == 0 {
        return Err(AppError::Validation("Card title is required".to_owned()));
    }
    let position = input.position;
    let card = Card {
        id: new_id,
        title: input.title,
        body: input.body,
        visibility: match input.visibility {
            Some(v) => v,
            None => CardVisibility::Restricted,
        },
        status: match input.status {
            Some(s) => s,
            None => CardStatus::Open,
        },
        start_date: input.start_date,
        end_date: input.end_date,
        due_date: input.due_date,
        owner_id: None,
        created_by: user,
    };
    match store.create_card(card, column, position) {
        Err(e) => Err(refuse(e)),
        Ok(p) => Ok(p),
    }
}

/// The cards of a board that `user` is shown when asking with `filter`: by the
/// position of their column and then by their own. What is shown depends on the
/// role that the user holds on the board.
pub fn list_cards(store: &Store, user: Id, board: Id, filter: &CardFilter) -> (cards: Vec<Id>)
    requires
        store.wf(),
    ensures
        cards@ == store.listed_among(
            store.columns().order(Container::Board(board)),
            store.role(board, user),
            *filter,
        ),
{
    let role = store.get_user_role(board, user);
    store.list_by_board_with_filter(board, role, filter)
}

/// A card, for a user who may see it.
pub fn get_card(store: &Store, user: Id, card: Id) -> (result: Result<Card, AppError>)
    requires
        store.wf(),
    ensures
        if !store.cards().has(card) {
            refused(result, AppErrorView::NotFound)
        } else if !may_view_card(store.cards().get(card), store.card_roles(card, user), user) {
            refused(result, AppErrorView::Forbidden)
        } else {
            result == Ok::<Card, AppError>(store.cards().get(card))
        },
{
    let found = match store.find_card(card) {
        None => {
            return Err(AppError::NotFound);
        },
        Some(found) => found,
    };
    let roles = store.roles_on_card(card, user);
    if !can_view_card(found, &roles, user) {
        return Err(AppError::Forbidden);
    }
    Ok(found.copy())
}

/// Changes a card, for a user who may edit it; what the request leaves out stays
/// as it is, and so does the place of the card.
pub fn update_card(store: &mut Store, user: Id, card: Id, input: UpdateCard) -> (result: Result<
    (),
    AppError,
>)
    requires
        old(store).wf(),
    ensures
        final(store).wf(),
        if !old(store).cards().has(card) {
            refused(result, AppErrorView::NotFound) && *final(store) == *old(store)
        } else if !may_edit_card(
            old(store).cards().get(card),
            old(store).card_roles(card, user),
            user,
        ) {
            refused(result, AppErrorView::Forbidden) && *final(store) == *old(store)
        } else {
            &&& result is Ok
            &&& final(store).same_but_cards(old(store))
            &&& changed_is(final(store).cards().get(card), old(store).cards().get(card), input)
            &&& final(store).cards().replaced(&old(store).cards(), final(store).cards().get(card))
        },
{
    let mut changed = match store.find_card(card) {
        None => {
            return Err(AppError::NotFound);
        },
        Some(found) => found.copy(),
    };
    let roles = store.roles_on_card(card, user);
    if !can_edit_card(&changed, &roles, user) {
        return Err(AppError::Forbidden);
    }
    match input.title {
        Some(t) => {
            changed.title = t;
        },
        None => {},
    }
    match input.body {
        Some(b) => {
            changed.body = Some(b);
        },
        None => {},
    }
    match input.visibility {
        Some(v) => {
            changed.visibility = v;
        },
        None => {},
    }
    match input.status {
        Some(s) => {
            changed.status = s;
        },
        None => {},
    }
    match input.start_date {
        Some(d) => {
            changed.start_date = Some(d);
        },
        None => {},
    }
    match input.end_date {
        Some(d) => {
            changed.end_date = Some(d);
        },
        None => {},
    }
    match input.due_date {
        Some(d) => {
            changed.due_date = Some(d);
        },
        None => {},
    }
    match store.update_card(changed) {
        Err(e) => Err(refuse(e)),
        Ok(()) => Ok(()),
    }
}

/// Deletes a card with its tags and its attachments, for a user who may edit it.
pub fn delete_card(store: &mut Store, user: Id, card: Id) -> (result: Result<(), AppError>)
    requires
        old(store).wf(),
    ensures
        final(store).wf(),
        if !old(store).cards().has(card) {
            refused(result, AppErrorView::NotFound) && *final(store) == *old(store)
        } else if !may_edit_card(
            old(store).cards().get(card),
            old(store).card_roles(card, user),
            user,
        ) {
            refused(result, AppErrorView::Forbidden) && *final(store) == *old(store)
        } else {
            result is Ok && final(store).card_deleted(old(store), card)
        },
{
    match store.find_card(card) {
        None => {
            return Err(AppError::NotFound);
        },
        Some(found) => {
            let roles = store.roles_on_card(card, user);
            if !can_edit_card(found, &roles, user) {
                return Err(AppError::Forbidden);
            }
        },
    }
    match store.delete_card(card) {
        Err(e) => Err(refuse(e)),
        Ok(()) => Ok(()),
    }
}

/// Moves a card to a position of a column of its board, for a user who may edit
/// the board. A card without a column has no board to move on, and a column of
/// another board is no target.
pub fn move_card(store: &mut Store, user: Id, card: Id, input: MoveCard) -> (result: Result<
    i32,
    AppError,
>)
    requires
        old(store).wf(),
    ensures
        final(store).wf(),
        if !old(store).cards().has(card) || old(store).home_board(card) is None {
            refused(result, AppErrorView::NotFound) && *final(store) == *old(store)
        } else if !may_edit(old(store).role(old(store).home_board(card)->0, user)) {
            refused(result, AppErrorView::Forbidden) && *final(store) == *old(store)
        } else if !old(store).columns().has(input.column_id) {
            refused(result, AppErrorView::NotFound) && *final(store) == *old(store)
        } else if old(store).columns().get(input.column_id).board_id != old(store).home_board(
            card,
        )->0 {
            refused(result, AppErrorView::BadRequest("Cannot move card to a different board"@))
                && *final(store) == *old(store)
        } else {
            match old(store).move_card_verdict(card, input.column_id, input.position) {
                Err(e) => refused(result, refusal(e)) && *final(store) == *old(store),
                Ok(p) => {
                    &&& result == Ok::<i32, AppError>(p)
                    &&& p == input.position
                    &&& final(store).same_but_cards(old(store))
                    &&& final(store).cards().moved_to(
                        &old(store).cards(),
                        card,
                        Container::Column(input.column_id),
                        p as int,
                    )
                },
            }
        },
{
    let board = match store.get_board_id_for_card(card) {
        None => {
            return Err(AppError::NotFound);
        },
        Some(board) => board,
    };
    if !can_edit(store.get_user_role(board, user)) {
        return Err(AppError::Forbidden);
    }
    match store.find_column(input.column_id) {
        None => {
            return Err(AppError::NotFound);
        },
        Some(target) => {
            if target.board_id != board {
                return Err(
                    AppError::BadRequest("Cannot move card to a different board".to_owned()),
                );
            }
        },
    }
    match store.move_card(card, input.column_id, input.position) {
        Err(e) => Err(refuse(e)),
        Ok(p) => Ok(p),
    }
}

} // verus!
