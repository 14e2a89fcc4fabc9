//! Requests on boards and on the roles that users hold on them.
use crate::access::{
    can_delete_board, can_edit, can_manage_permissions, may_delete_board, may_edit,
    may_manage_permissions,
};
use crate::error::{refusal, refuse, AppError, AppErrorView};
use crate::models::board::{AddBoardPermission, Board, BoardPermission, BoardRole, CreateBoard, UpdateBoard};
use crate::models::tag::Tag;
use crate::position::{Container, Id};
use crate::store::boards::visible_boards;
use crate::store::{has_board, Store, StoreError};
use vstd::prelude::*;
use vstd::string::*;

verus! {

/// The answer is the error `e`.
pub open spec fn refused<T>(result: Result<T, AppError>, e: AppErrorView) -> bool {
    result matches Err(err) && err@ == e
}

/// A board with what is on it, as one user sees it.
#[derive(Clone, Debug, PartialEq, Eq)]
pub struct BoardWithDetails {
    pub id: Id,
    pub name: String,
    pub description: Option<String>,
    pub owner_id: Id,
    pub role: BoardRole,
    pub columns: Vec<Id>,
    pub tags: Vec<Id>,
}

/// The tags of `board`, in the order of their creation.
pub open spec fn board_tags(tags: Seq<Tag>, board: Id) -> Seq<Id> {
    tags.filter(|t: Tag| t.board_id == Some(board)).map_values(|t: Tag| t.id)
}

/// The tags of `board`, in the order of their creation.
pub fn list_board_tags(store: &Store, board: Id) -> (ids: Vec<Id>)
    ensures
        ids@ == board_tags(store.tags(), board),
{
    let ghost mine = |t: Tag| t.board_id == Some(board);
    let ghost to_id = |t: Tag| t.id;
    let mut ids: Vec<Id> = Vec::new();
    let mut i: usize = 0;
    proof {
        reveal(Seq::filter);
        assert(store.tags().take(0) =~= Seq::<Tag>::empty());
        assert(Seq::<Tag>::empty().filter(mine).map_values(to_id) =~= Seq::<Id>::empty());
    }
    while i < store.tag_count()
        invariant
            i <= store.tags().len(),
            ids@ == board_tags(store.tags().take(i as int), board),
        decreases store.tags().len() - i,
    {
        let tag = store.tag_at(i);
        let hit = match tag.board_id {
            Some(b) => b == board,
            None => false,
        };
        proof {
            reveal(Seq::filter);
            let mine = |t: Tag| t.board_id == Some(board);
            let to_id = |t: Tag| t.id;
            assert(store.tags().take(i + 1).drop_last() =~= store.tags().take(i as int));
            if hit {
                assert(store.tags().take(i + 1).filter(mine).map_values(to_id)
                    =~= store.tags().take(i as int).filter(mine).map_values(to_id).push(tag.id));
            }
        }
        if hit {
            ids.push(tag.id);
        }
        i += 1;
    }
    proof {
        assert(store.tags().take(i as int) =~= store.tags());
    }
    ids
}

/// Creates a board for `user`, who becomes its owner. A board needs a name.
pub fn create_board(store: &mut Store, user: Id, new_id: Id, input: CreateBoard) -> (result: Result<
    Id,
    AppError,
>)
    requires
        old(store).wf(),
    ensures
        final(store).wf(),
        if input.name@.len() == 0 {
            refused(result, AppErrorView::Validation("Board name is required"@)) && *final(store)
                == *old(store)
        } else if has_board(old(store).boards(), new_id) {
            refused(result, refusal(StoreError::DuplicateId)) && *final(store) == *old(store)
        } else {
            &&& result == Ok::<Id, AppError>(new_id)
            &&& final(store).same_records(old(store))
            &&& final(store).boards() == old(store).boards().insert(
                0,
                Board {
                    id: new_id,
                    name: input.name,
                    description: input.description,
                    owner_id: user,
                },
            )
            &&& final(store).permissions() == old(store).permissions().push(
                BoardPermission { board_id: new_id, user_id: user, role: BoardRole::Owner },
            )
        },
{
    if input.name.as_str().unicode_len() == 0 {
        return Err(AppError::Validation("Board name is required".to_owned()));
    }
    let board = Board {
        id: new_id,
        name: input.name,
        description: input.description,
        owner_id: user,
    };
    match store.create_board(board) {
        Err(e) => Err(refuse(e)),
        Ok(()) => Ok(new_id),
    }
}

/// The boards that `user` holds a role on, each with the role, the most recently
/// changed first.
pub fn list_boards(store: &Store, user: Id) -> (boards: Vec<(Id, BoardRole)>)
    requires
        store.wf(),
    ensures
        boards@ == visible_boards(store.boards(), store.permissions(), user),
{
    store.list_for_user(user)
}

/// A board with its columns and its tags, for a user who holds a role on it.
pub fn get_board(store: &Store, user: Id, board: Id) -> (result: Result<BoardWithDetails, AppError>)
    requires
        store.wf(),
    ensures
        if !has_board(store.boards(), board) {
            refused(result, AppErrorView::NotFound)
        } else if store.role(board, user) is None {
            refused(result, AppErrorView::Forbidden)
        } else {
            result matches Ok(details) && {
                &&& details.id == board
                &&& details.name == store.board(board).name
                &&& details.description == store.board(board).description
                &&& details.owner_id == store.board(board).owner_id
                &&& Some(details.role) == store.role(board, user)
                &&& details.columns@ == store.columns().order(Container::Board(board))
                &&& details.tags@ == board_tags(store.tags(), board)
            }
        },
{
    let found = match store.find_board(board) {
        None => {
            return Err(AppError::NotFound);
        },
        Some(found) => found,
    };
    let role = match store.get_user_role(board, user) {
        None => {
            return Err(AppError::Forbidden);
        },
        Some(role) => role,
    };
    Ok(
        BoardWithDetails {
            id: board,
            name: found.name.clone(),
            description: match &found.description {
                Some(d) => Some(d.clone()),
                None => None,
            },
            owner_id: found.owner_id,
            role,
            columns: store.list_columns(board),
            tags: list_board_tags(store, board),
        },
    )
}

/// Changes the name and the description of a board, for a user who may edit it.
pub fn update_board(store: &mut Store, user: Id, board: Id, input: UpdateBoard) -> (result: Result<
    (),
    AppError,
>)
    requires
        old(store).wf(),
    ensures
        final(store).wf(),
        if !may_edit(old(store).role(board, user)) {
            refused(result, AppErrorView::Forbidden) && *final(store) == *old(store)
        } else {
            result is Ok && final(store).board_updated(
                old(store),
                board,
                match input.name {
                    Some(n) => Some(n@),
                    None => None,
                },
                match input.description {
                    Some(d) => Some(d@),
                    None => None,
                },
            )
        },
{
    if !can_edit(store.get_user_role(board, user)) {
        return Err(AppError::Forbidden);
    }
    proof {
        crate::store::boards::lemma_role_on_board(store, board, user);
    }
    let name = match &input.name {
        Some(n) => Some(n.as_str()),
        None => None,
    };
    let description = match &input.description {
        Some(d) => Some(d.as_str()),
        None => None,
    };
    match store.update_board(board, name, description) {
        Err(e) => Err(refuse(e)),
        Ok(()) => Ok(()),
    }
}

/// Deletes a board with what is on it, for its owner.
pub fn delete_board(store: &mut Store, user: Id, board: Id) -> (result: Result<(), AppError>)
    requires
        old(store).wf(),
    ensures
        final(store).wf(),
        if !may_delete_board(old(store).role(board, user)) {
            refused(result, AppErrorView::Forbidden) && *final(store) == *old(store)
        } else {
            match old(store).delete_board_verdict(board) {
                Err(e) => refused(result, refusal(e)) && *final(store) == *old(store),
                Ok(_) => result is Ok && final(store).board_deleted(old(store), board),
            }
        },
{
    if !can_delete_board(store.get_user_role(board, user)) {
        return Err(AppError::Forbidden);
    }
    match store.delete_board(board) {
        Err(e) => Err(refuse(e)),
        Ok(()) => Ok(()),
    }
}

/// Gives a user a role on a board, for the owner of the board. No one is made a
/// second owner.
pub fn add_permission(store: &mut Store, user: Id, board: Id, input: AddBoardPermission) -> (result:
    Result<(), AppError>)
    requires
        old(store).wf(),
    ensures
        final(store).wf(),
        if !may_manage_permissions(old(store).role(board, user)) {
            refused(result, AppErrorView::Forbidden) && *final(store) == *old(store)
        } else {
            match old(store).add_permission_verdict(board, input.user_id, input.role) {
                Err(e) => refused(result, refusal(e)) && *final(store) == *old(store),
                Ok(_) => {
                    &&& result is Ok
                    &&& final(store).boards() == old(store).boards()
                    &&& final(store).same_records(old(store))
                    &&& forall|b: Id, u: Id| #[trigger]
                        final(store).role(b, u) == if b == board && u == input.user_id {
                            Some(input.role)
                        } else {
                            old(store).role(b, u)
                        }
                },
            }
        },
{
    if !can_manage_permissions(store.get_user_role(board, user)) {
        return Err(AppError::Forbidden);
    }
    match store.add_permission(board, input.user_id, input.role) {
        Err(e) => Err(refuse(e)),
        Ok(()) => Ok(()),
    }
}

/// Takes the role of `target` on a board away, for the owner of the board. The
/// owner's own role stays.
pub fn remove_permission(store: &mut Store, user: Id, board: Id, target: Id) -> (result: Result<
    (),
    AppError,
>)
    requires
        old(store).wf(),
    ensures
        final(store).wf(),
        if !may_manage_permissions(old(store).role(board, user)) {
            refused(result, AppErrorView::Forbidden) && *final(store) == *old(store)
        } else {
            match old(store).remove_permission_verdict(board, target) {
                Err(_) => refused(
                    result,
                    AppErrorView::BadRequest(
                        "Cannot remove owner permission or permission not found"@,
                    ),
                ) && *final(store) == *old(store),
                Ok(_) => {
                    &&& result is Ok
                    &&& final(store).boards() == old(store).boards()
                    &&& final(store).same_records(old(store))
                    &&& forall|b: Id, u: Id| #[trigger]
                        final(store).role(b, u) == if b == board && u == target {
                            None
                        } else {
                            old(store).role(b, u)
                        }
                },
            }
        },
{
    if !can_manage_permissions(store.get_user_role(board, user)) {
        return Err(AppError::Forbidden);
    }
    match store.remove_permission(board, target) {
        Err(_) => Err(
            AppError::BadRequest(
                "Cannot remove owner permission or permission not found".to_owned(),
            ),
        ),
        Ok(()) => Ok(()),
    }
}

} // verus!
