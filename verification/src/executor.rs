//! Carrying out the actions that a reply asks for.
//!
//! Every action is attempted once and answered with one outcome: its name, what
//! happened, and whether it succeeded. A missing parameter, a name that matches
//! nothing and a missing right are outcomes, not errors; an error is what the
//! store itself cannot do, and it changes nothing.
use crate::access::{can_edit, may_edit};
use crate::error::{refusal, refuse, AppError};
use crate::ids::fresh_id;
use crate::models::board::{Board, BoardPermission, BoardRole};
use crate::models::card::{Card, CardStatus, CardVisibility};
use crate::models::chat::{given, if_given, or_else, ActionTaken, ChatAction, LlmAction, Outcome, Request};
use crate::models::column::Column;
use crate::models::tag::CardTag;
use crate::position::{Container, Id};
use crate::store::{has_board, has_tag, store_error, tagged, Store, StoreError};
use crate::text::joined;
use vstd::prelude::*;
use vstd::string::*;

verus! {

/// The outcome of an action that failed.
pub open spec fn failed(action: Seq<char>, description: Seq<char>) -> Outcome {
    Outcome { action, description, success: false }
}

/// The outcome of an action that succeeded.
pub open spec fn succeeded(action: Seq<char>, description: Seq<char>) -> Outcome {
    Outcome { action, description, success: true }
}

/// The answer is the outcome `o`.
pub open spec fn answers(result: Result<ActionTaken, AppError>, o: Outcome) -> bool {
    result matches Ok(t) && t@ == o
}

/// The answer is the error that the refusal `e` of the store stands for.
pub open spec fn fails_with(result: Result<ActionTaken, AppError>, e: StoreError) -> bool {
    result matches Err(err) && err@ == refusal(e)
}

/// The colour of a tag that is given none.
pub open spec fn default_color() -> Seq<char> {
    "#6c757d"@
}

fn failure(action: &str, description: String) -> (t: ActionTaken)
    ensures
        t@ == failed(action@, description@),
{
    ActionTaken { action: action.to_owned(), description, success: false }
}

fn success(action: &str, description: String) -> (t: ActionTaken)
    ensures
        t@ == succeeded(action@, description@),
{
    ActionTaken { action: action.to_owned(), description, success: true }
}

fn text3(a: &str, b: &str, c: &str) -> (s: String)
    ensures
        s@ == a@ + b@ + c@,
{
    let mut s = a.to_owned();
    s.append(b);
    s.append(c);
    s
}

fn text5(a: &str, b: &str, c: &str, d: &str, e: &str) -> (s: String)
    ensures
        s@ == a@ + b@ + c@ + d@ + e@,
{
    let mut s = a.to_owned();
    s.append(b);
    s.append(c);
    s.append(d);
    s.append(e);
    s
}

fn has_text(s: &String) -> (some: bool)
    ensures
        some == (s@.len() > 0),
{
    s.as_str().unicode_len() > 0
}

fn optional(s: String) -> (o: Option<String>)
    ensures
        match o {
            Some(t) => if_given(s@) == Some(t@),
            None => if_given(s@) is None,
        },
{
    if has_text(&s) {
        Some(s)
    } else {
        None
    }
}

/// The column that `create_card` asks for.
pub open spec fn wanted_column(req: Request) -> Seq<char> {
    or_else(
        given(req.params, "column"@),
        or_else(given(req.params, "column_name"@), given(req.params, "in"@)),
    )
}

/// The title that `create_card` asks for.
pub open spec fn wanted_title(req: Request) -> Seq<char> {
    or_else(
        given(req.params, "title"@),
        or_else(given(req.params, "name"@), given(req.params, "card_title"@)),
    )
}

/// The body that `create_card` asks for, if any.
pub open spec fn wanted_body(req: Request) -> Option<Seq<char>> {
    if_given(
        or_else(
            given(req.params, "body"@),
            or_else(given(req.params, "description"@), given(req.params, "content"@)),
        ),
    )
}

/// The card `card` is a new card `id` of `user` with this title and body: it is
/// restricted, open, without dates and without an owner of its own.
pub open spec fn is_new_card(
    card: Card,
    id: Id,
    title: Seq<char>,
    body: Option<Seq<char>>,
    user: Id,
) -> bool {
    &&& card.id == id
    &&& card.title@ == title
    &&& match card.body {
        Some(b) => body == Some(b@),
        None => body is None,
    }
    &&& card.visibility == CardVisibility::Restricted
    &&& card.status == CardStatus::Open
    &&& card.start_date is None
    &&& card.end_date is None
    &&& card.due_date is None
    &&& card.owner_id is None
    &&& card.created_by == user
}

/// What `create_card` does: a card with the wanted title goes to the end of the
/// wanted column of `board`.
pub open spec fn create_card_done(
    before: Store,
    after: Store,
    board: Id,
    user: Id,
    req: Request,
    new_id: Id,
    result: Result<ActionTaken, AppError>,
) -> bool {
    let name = wanted_column(req);
    let title = wanted_title(req);
    if name.len() == 0 || title.len() == 0 {
        after == before && answers(
            result,
            failed(
                "create_card"@,
                "Missing column or title. Received params: "@ + req.raw_params,
            ),
        )
    } else {
        match before.column_named(board, name) {
            None => after == before && answers(
                result,
                failed("create_card"@, "Column '"@ + name + "' not found"@),
            ),
            Some(col) => match before.cards().insert_verdict(
                new_id,
                Container::Column(col),
                None,
            ) {
                Err(e) => after == before && fails_with(result, store_error(e)),
                Ok(p) => {
                    &&& answers(
                        result,
                        succeeded(
                            "create_card"@,
                            "Created card '"@ + title + "' in column '"@ + before.columns().get(
                                col,
                            ).name@ + "'"@,
                        ),
                    )
                    &&& after.same_but_cards(&before)
                    &&& is_new_card(after.cards().get(new_id), new_id, title, wanted_body(req), user)
                    &&& after.cards().inserted(
                        &before.cards(),
                        after.cards().get(new_id),
                        Container::Column(col),
                        p as int,
                    )
                },
            },
        }
    }
}

/// Carries out `create_card`.
pub fn create_card_action(
    store: &mut Store,
    board: Id,
    user: Id,
    action: &LlmAction,
    new_id: Id,
) -> (result: Result<ActionTaken, AppError>)
    requires
        old(store).wf(),
    ensures
        final(store).wf(),
        create_card_done(*old(store), *final(store), board, user, action@, new_id, result),
{
    let name = action.param3("column", "column_name", "in");
    let title = action.param3("title", "name", "card_title");
    let body = optional(action.param3("body", "description", "content"));
    if !has_text(&name) || !has_text(&title) {
        return Ok(
            failure(
                "create_card",
                joined(
                    "Missing column or title. Received params: ",
                    action.raw_params.as_str(),
                ),
            ),
        );
    }
    let col = match store.find_column_by_name(board, name.as_str()) {
        None => {
            return Ok(failure("create_card", text3("Column '", name.as_str(), "' not found")));
        },
        Some(col) => col,
    };
    let description = match store.find_column(col) {
        Some(column) => text5(
            "Created card '",
            title.as_str(),
            "' in column '",
            column.name.as_str(),
            "'",
        ),
        None => String::new(),
    };
    let card = Card {
        id: new_id,
        title,
        body,
        visibility: CardVisibility::Restricted,
        status: CardStatus::Open,
        start_date: None,
        end_date: None,
        due_date: None,
        owner_id: None,
        created_by: user,
    };
    match store.create_card(card, col, None) {
        Err(e) => Err(refuse(e)),
        Ok(_) => Ok(success("create_card", description)),
    }
}

/// The card that `move_card` and `delete_card` ask for.
pub open spec fn wanted_card(req: Request) -> Seq<char> {
    or_else(
        given(req.params, "card_title"@),
        or_else(
            given(req.params, "card"@),
            or_else(given(req.params, "title"@), given(req.params, "name"@)),
        ),
    )
}

/// The column that `move_card` asks to move to.
pub open spec fn wanted_target(req: Request) -> Seq<char> {
    or_else(
        given(req.params, "target_column"@),
        or_else(
            given(req.params, "column"@),
            or_else(given(req.params, "to"@), given(req.params, "destination"@)),
        ),
    )
}

/// What `move_card` does: the wanted card of `board` goes to the top of the wanted
/// column.
pub open spec fn move_card_done(
    before: Store,
    after: Store,
    board: Id,
    req: Request,
    result: Result<ActionTaken, AppError>,
) -> bool {
    let title = wanted_card(req);
    let target = wanted_target(req);
    if title.len() == 0 || target.len() == 0 {
        after == before && answers(
            result,
            failed(
                "move_card"@,
                "Missing card_title or target_column. Received params: "@ + req.raw_params,
            ),
        )
    } else {
        match (before.card_titled(board, title), before.column_named(board, target)) {
            (None, _) => after == before && answers(
                result,
                failed("move_card"@, "Card '"@ + title + "' not found"@),
            ),
            (Some(_), None) => after == before && answers(
                result,
                failed("move_card"@, "Column '"@ + target + "' not found"@),
            ),
            (Some(card), Some(col)) => match before.move_card_verdict(card, col, 0) {
                Err(e) => after == before && fails_with(result, e),
                Ok(_) => {
                    &&& answers(
                        result,
                        succeeded(
                            "move_card"@,
                            "Moved '"@ + before.cards().get(card).title@ + "' to '"@
                                + before.columns().get(col).name@ + "'"@,
                        ),
                    )
                    &&& after.same_but_cards(&before)
                    &&& after.cards().moved_to(&before.cards(), card, Container::Column(col), 0)
                },
            },
        }
    }
}

/// Carries out `move_card`.
pub fn move_card_action(store: &mut Store, board: Id, action: &LlmAction) -> (result: Result<
    ActionTaken,
    AppError,
>)
    requires
        old(store).wf(),
    ensures
        final(store).wf(),
        move_card_done(*old(store), *final(store), board, action@, result),
{
    let title = action.param4("card_title", "card", "title", "name");
    let target = action.param4("target_column", "column", "to", "destination");
    if !has_text(&title) || !has_text(&target) {
        return Ok(
            failure(
                "move_card",
                joined(
                    "Missing card_title or target_column. Received params: ",
                    action.raw_params.as_str(),
                ),
            ),
        );
    }
    let found_card = store.find_card_by_title(board, title.as_str());
    let found_column = store.find_column_by_name(board, target.as_str());
    let card = match found_card {
        None => {
            return Ok(failure("move_card", text3("Card '", title.as_str(), "' not found")));
        },
        Some(card) => card,
    };
    let col = match found_column {
        None => {
            return Ok(failure("move_card", text3("Column '", target.as_str(), "' not found")));
        },
        Some(col) => col,
    };
    let description = match (store.find_card(card), store.find_column(col)) {
        (Some(c), Some(column)) => text5(
            "Moved '",
            c.title.as_str(),
            "' to '",
            column.name.as_str(),
            "'",
        ),
        _ => String::new(),
    };
    match store.move_card(card, col, 0) {
        Err(e) => Err(refuse(e)),
        Ok(_) => Ok(success("move_card", description)),
    }
}

/// The name that `create_tag` asks for.
pub open spec fn wanted_tag_name(req: Request) -> Seq<char> {
    or_else(
        given(req.params, "name"@),
        or_else(given(req.params, "tag_name"@), given(req.params, "tag"@)),
    )
}

/// The colour that `create_tag` asks for, grey where it asks for none.
pub open spec fn wanted_color(req: Request) -> Seq<char> {
    or_else(
        given(req.params, "color"@),
        or_else(given(req.params, "hex_color"@), default_color()),
    )
}

/// What `create_tag` does: `board` gets a tag with the wanted name and colour.
pub open spec fn create_tag_done(
    before: Store,
    after: Store,
    board: Id,
    req: Request,
    new_id: Id,
    result: Result<ActionTaken, AppError>,
) -> bool {
    let name = wanted_tag_name(req);
    if name.len() == 0 {
        after == before && answers(
            result,
            failed("create_tag"@, "Missing tag name. Received params: "@ + req.raw_params),
        )
    } else if !crate::store::has_board(before.boards(), board) {
        after == before && fails_with(result, StoreError::NotFound)
    } else if has_tag(before.tags(), new_id) {
        after == before && fails_with(result, StoreError::DuplicateId)
    } else {
        &&& answers(result, succeeded("create_tag"@, "Created tag '"@ + name + "'"@))
        &&& after.tag_created(&before, new_id, board, name, wanted_color(req))
    }
}

/// Carries out `create_tag`.
pub fn create_tag_action(store: &mut Store, board: Id, action: &LlmAction, new_id: Id) -> (result:
    Result<ActionTaken, AppError>)
    requires
        old(store).wf(),
    ensures
        final(store).wf(),
        create_tag_done(*old(store), *final(store), board, action@, new_id, result),
{
    let name = action.param3("name", "tag_name", "tag");
    let given_color = action.param2("color", "hex_color");
    let color = if has_text(&given_color) {
        given_color
    } else {
        "#6c757d".to_owned()
    };
    if !has_text(&name) {
        return Ok(
            failure(
                "create_tag",
                joined("Missing tag name. Received params: ", action.raw_params.as_str()),
            ),
        );
    }
    match store.create_tag(new_id, board, name.as_str(), color.as_str()) {
        Err(e) => Err(refuse(e)),
        Ok(()) => Ok(success("create_tag", text3("Created tag '", name.as_str(), "'"))),
    }
}

/// The card that `add_tag` asks for.
pub open spec fn tagged_card(req: Request) -> Seq<char> {
    or_else(
        given(req.params, "card_title"@),
        or_else(given(req.params, "card"@), given(req.params, "title"@)),
    )
}

/// The tag that `add_tag` asks for.
pub open spec fn added_tag(req: Request) -> Seq<char> {
    or_else(
        given(req.params, "tag_name"@),
        or_else(given(req.params, "tag"@), given(req.params, "name"@)),
    )
}

/// What `add_tag` does: the wanted tag of `board` goes on the wanted card.
pub open spec fn add_tag_done(
    before: Store,
    after: Store,
    board: Id,
    req: Request,
    result: Result<ActionTaken, AppError>,
) -> bool {
    let title = tagged_card(req);
    let name = added_tag(req);
    if title.len() == 0 || name.len() == 0 {
        after == before && answers(
            result,
            failed(
                "add_tag"@,
                "Missing card_title or tag_name. Received params: "@ + req.raw_params,
            ),
        )
    } else {
        match (before.card_titled(board, title), before.tag_named(crate::resolver::TagScope::Board(board), name)) {
            (None, _) => after == before && answers(
                result,
                failed("add_tag"@, "Card '"@ + title + "' not found"@),
            ),
            (Some(_), None) => after == before && answers(
                result,
                failed("add_tag"@, "Tag '"@ + name + "' not found"@),
            ),
            (Some(card), Some(tag)) => {
                &&& answers(
                    result,
                    succeeded(
                        "add_tag"@,
                        "Added tag '"@ + before.tag(tag).name@ + "' to '"@ + before.cards().get(
                            card,
                        ).title@ + "'"@,
                    ),
                )
                &&& after.tag_put_on(&before, card, tag)
            },
        }
    }
}

/// Carries out `add_tag`.
pub fn add_tag_action(store: &mut Store, board: Id, action: &LlmAction) -> (result: Result<
    ActionTaken,
    AppError,
>)
    requires
        old(store).wf(),
    ensures
        final(store).wf(),
        add_tag_done(*old(store), *final(store), board, action@, result),
{
    let title = action.param3("card_title", "card", "title");
    let name = action.param3("tag_name", "tag", "name");
    if !has_text(&title) || !has_text(&name) {
        return Ok(
            failure(
                "add_tag",
                joined(
                    "Missing card_title or tag_name. Received params: ",
                    action.raw_params.as_str(),
                ),
            ),
        );
    }
    let found_card = store.find_card_by_title(board, title.as_str());
    let found_tag = store.find_tag_by_name(board, name.as_str());
    let card = match found_card {
        None => {
            return Ok(failure("add_tag", text3("Card '", title.as_str(), "' not found")));
        },
        Some(card) => card,
    };
    let tag = match found_tag {
        None => {
            return Ok(failure("add_tag", text3("Tag '", name.as_str(), "' not found")));
        },
        Some(tag) => tag,
    };
    let description = match (store.find_tag(tag), store.find_card(card)) {
        (Some(t), Some(c)) => text5("Added tag '", t.name.as_str(), "' to '", c.title.as_str(), "'"),
        _ => String::new(),
    };
    match store.add_tag_to_card(card, tag) {
        Err(e) => Err(refuse(e)),
        Ok(()) => Ok(success("add_tag", description)),
    }
}

/// The column that `delete_column` and `create_column` ask for.
pub open spec fn named_column(req: Request) -> Seq<char> {
    or_else(
        given(req.params, "column"@),
        or_else(given(req.params, "column_name"@), given(req.params, "name"@)),
    )
}

/// What `delete_column` does: the wanted column of `board` goes, with what is in
/// it.
pub open spec fn delete_column_done(
    before: Store,
    after: Store,
    board: Id,
    req: Request,
    result: Result<ActionTaken, AppError>,
) -> bool {
    let name = named_column(req);
    if name.len() == 0 {
        after == before && answers(
            result,
            failed("delete_column"@, "Missing column name. Received params: "@ + req.raw_params),
        )
    } else {
        match before.column_named(board, name) {
            None => after == before && answers(
                result,
                failed("delete_column"@, "Column '"@ + name + "' not found"@),
            ),
            Some(col) => match before.delete_column_verdict(col) {
                Err(e) => after == before && fails_with(result, e),
                Ok(_) => {
                    &&& answers(
                        result,
                        succeeded(
                            "delete_column"@,
                            "Deleted column '"@ + before.columns().get(col).name@ + "'"@,
                        ),
                    )
                    &&& after.column_deleted(&before, col)
                },
            },
        }
    }
}

/// Carries out `delete_column`.
pub fn delete_column_action(store: &mut Store, board: Id, action: &LlmAction) -> (result: Result<
    ActionTaken,
    AppError,
>)
    requires
        old(store).wf(),
    ensures
        final(store).wf(),
        delete_column_done(*old(store), *final(store), board, action@, result),
{
    let name = action.param3("column", "column_name", "name");
    if !has_text(&name) {
        return Ok(
            failure(
                "delete_column",
                joined("Missing column name. Received params: ", action.raw_params.as_str()),
            ),
        );
    }
    let col = match store.find_column_by_name(board, name.as_str()) {
        None => {
            return Ok(failure("delete_column", text3("Column '", name.as_str(), "' not found")));
        },
        Some(col) => col,
    };
    let description = match store.find_column(col) {
        Some(column) => text3("Deleted column '", column.name.as_str(), "'"),
        None => String::new(),
    };
    match store.delete_column(col) {
        Err(e) => Err(refuse(e)),
        Ok(()) => Ok(success("delete_column", description)),
    }
}

/// The tag that `delete_tag` asks for.
pub open spec fn doomed_tag(req: Request) -> Seq<char> {
    or_else(
        given(req.params, "tag"@),
        or_else(given(req.params, "tag_name"@), given(req.params, "name"@)),
    )
}

/// What `delete_tag` does: the wanted tag of `board` goes, off every card.
pub open spec fn delete_tag_done(
    before: Store,
    after: Store,
    board: Id,
    req: Request,
    result: Result<ActionTaken, AppError>,
) -> bool {
    let name = doomed_tag(req);
    if name.len() == 0 {
        after == before && answers(
            result,
            failed("delete_tag"@, "Missing tag name. Received params: "@ + req.raw_params),
        )
    } else {
        match before.tag_named(crate::resolver::TagScope::Board(board), name) {
            None => after == before && answers(
                result,
                failed("delete_tag"@, "Tag '"@ + name + "' not found"@),
            ),
            Some(tag) => {
                &&& answers(
                    result,
                    succeeded("delete_tag"@, "Deleted tag '"@ + before.tag(tag).name@ + "'"@),
                )
                &&& after.tag_deleted(&before, tag)
            },
        }
    }
}

/// Carries out `delete_tag`.
pub fn delete_tag_action(store: &mut Store, board: Id, action: &LlmAction) -> (result: Result<
    ActionTaken,
    AppError,
>)
    requires
        old(store).wf(),
    ensures
        final(store).wf(),
        delete_tag_done(*old(store), *final(store), board, action@, result),
{
    let name = action.param3("tag", "tag_name", "name");
    if !has_text(&name) {
        return Ok(
            failure(
                "delete_tag",
                joined("Missing tag name. Received params: ", action.raw_params.as_str()),
            ),
        );
    }
    let tag = match store.find_tag_by_name(board, name.as_str()) {
        None => {
            return Ok(failure("delete_tag", text3("Tag '", name.as_str(), "' not found")));
        },
        Some(tag) => tag,
    };
    let description = match store.find_tag(tag) {
        Some(t) => text3("Deleted tag '", t.name.as_str(), "'"),
        None => String::new(),
    };
    match store.delete_tag(tag) {
        Err(e) => Err(refuse(e)),
        Ok(()) => Ok(success("delete_tag", description)),
    }
}

/// The card that `delete_card` asks for.
pub open spec fn doomed_card(req: Request) -> Seq<char> {
    or_else(
        given(req.params, "card"@),
        or_else(
            given(req.params, "card_title"@),
            or_else(given(req.params, "title"@), given(req.params, "name"@)),
        ),
    )
}

/// What `delete_card` does: the wanted card of `board` goes, with its tags and its
/// attachments.
pub open spec fn delete_card_done(
    before: Store,
    after: Store,
    board: Id,
    req: Request,
    result: Result<ActionTaken, AppError>,
) -> bool {
    let title = doomed_card(req);
    if title.len() == 0 {
        after == before && answers(
            result,
            failed("delete_card"@, "Missing card title. Received params: "@ + req.raw_params),
        )
    } else {
        match before.card_titled(board, title) {
            None => after == before && answers(
                result,
                failed("delete_card"@, "Card '"@ + title + "' not found"@),
            ),
            Some(card) => {
                &&& answers(
                    result,
                    succeeded(
                        "delete_card"@,
                        "Deleted card '"@ + before.cards().get(card).title@ + "'"@,
                    ),
                )
                &&& after.card_deleted(&before, card)
            },
        }
    }
}

/// Carries out `delete_card`.
pub fn delete_card_action(store: &mut Store, board: Id, action: &LlmAction) -> (result: Result<
    ActionTaken,
    AppError,
>)
    requires
        old(store).wf(),
    ensures
        final(store).wf(),
        delete_card_done(*old(store), *final(store), board, action@, result),
{
    let title = action.param4("card", "card_title", "title", "name");
    if !has_text(&title) {
        return Ok(
            failure(
                "delete_card",
                joined("Missing card title. Received params: ", action.raw_params.as_str()),
            ),
        );
    }
    let card = match store.find_card_by_title(board, title.as_str()) {
        None => {
            return Ok(failure("delete_card", text3("Card '", title.as_str(), "' not found")));
        },
        Some(card) => card,
    };
    let description = match store.find_card(card) {
        Some(c) => text3("Deleted card '", c.title.as_str(), "'"),
        None => String::new(),
    };
    match store.delete_card(card) {
        Err(e) => Err(refuse(e)),
        Ok(()) => Ok(success("delete_card", description)),
    }
}

/// The name that `create_column` asks for.
pub open spec fn new_column_name(req: Request) -> Seq<char> {
    or_else(
        given(req.params, "name"@),
        or_else(given(req.params, "column"@), given(req.params, "column_name"@)),
    )
}

/// What `create_column` does: `board` gets a column with the wanted name, behind
/// its other columns.
pub open spec fn create_column_done(
    before: Store,
    after: Store,
    board: Id,
    req: Request,
    new_id: Id,
    result: Result<ActionTaken, AppError>,
) -> bool {
    let name = new_column_name(req);
    if name.len() == 0 {
        after == before && answers(
            result,
            failed("create_column"@, "Missing column name. Received params: "@ + req.raw_params),
        )
    } else if !crate::store::has_board(before.boards(), board) {
        after == before && fails_with(result, StoreError::NotFound)
    } else {
        match before.columns().insert_verdict(new_id, Container::Board(board), None) {
            Err(e) => after == before && fails_with(result, store_error(e)),
            Ok(p) => {
                &&& answers(result, succeeded("create_column"@, "Created column '"@ + name + "'"@))
                &&& after.same_but_columns(&before)
                &&& after.columns().get(new_id).id == new_id
                &&& after.columns().get(new_id).board_id == board
                &&& after.columns().get(new_id).name@ == name
                &&& after.columns().inserted(
                    &before.columns(),
                    after.columns().get(new_id),
                    Container::Board(board),
                    p as int,
                )
            },
        }
    }
}

/// Carries out `create_column`.
pub fn create_column_action(store: &mut Store, board: Id, action: &LlmAction, new_id: Id) -> (result:
    Result<ActionTaken, AppError>)
    requires
        old(store).wf(),
    ensures
        final(store).wf(),
        create_column_done(*old(store), *final(store), board, action@, new_id, result),
{
    let name = action.param3("name", "column", "column_name");
    if !has_text(&name) {
        return Ok(
            failure(
                "create_column",
                joined("Missing column name. Received params: ", action.raw_params.as_str()),
            ),
        );
    }
    let description = text3("Created column '", name.as_str(), "'");
    match store.create_column(Column { id: new_id, board_id: board, name }, None) {
        Err(e) => Err(refuse(e)),
        Ok(_) => Ok(success("create_column", description)),
    }
}

/// Whether an action of this kind is carried out on a board by `execute_action`.
pub open spec fn carried_out_on_board(kind: ChatAction) -> bool {
    kind == ChatAction::CreateCard || kind == ChatAction::MoveCard || kind
        == ChatAction::CreateTag || kind == ChatAction::AddTag || kind
        == ChatAction::DeleteColumn || kind == ChatAction::DeleteTag || kind
        == ChatAction::DeleteCard || kind == ChatAction::CreateColumn || kind
        == ChatAction::DeleteBoard
}

/// What `execute_action` does with a request on `board`, for the user `user`. An
/// unknown action is reported under the name it came with. An action that only
/// reads changes nothing and succeeds. An action that is not carried out on a
/// board fails. Every other action asks for the right to edit the board, and is
/// then carried out as its kind says.
pub open spec fn action_done(
    before: Store,
    after: Store,
    board: Id,
    user: Id,
    req: Request,
    new_id: Id,
    result: Result<ActionTaken, AppError>,
) -> bool {
    let kind = ChatAction::of_name(req.action);
    if kind == ChatAction::Unknown {
        after == before && answers(result, failed(req.action, "Unknown action: "@ + req.action))
    } else if kind.is_read_only() {
        after == before && answers(result, succeeded(kind.name(), "No modification made"@))
    } else if kind == ChatAction::CreateBoard || kind == ChatAction::MoveCardCrossBoard {
        after == before && answers(
            result,
            failed(kind.name(), "This action is only available in global chat"@),
        )
    } else if !carried_out_on_board(kind) {
        after == before && answers(
            result,
            failed(kind.name(), "This action is not available in a board chat"@),
        )
    } else if !may_edit(before.role(board, user)) {
        after == before && answers(
            result,
            failed(kind.name(), "You don't have permission to edit this board"@),
        )
    } else {
        match kind {
            ChatAction::CreateCard => create_card_done(
                before,
                after,
                board,
                user,
                req,
                new_id,
                result,
            ),
            ChatAction::MoveCard => move_card_done(before, after, board, req, result),
            ChatAction::CreateTag => create_tag_done(before, after, board, req, new_id, result),
            ChatAction::AddTag => add_tag_done(before, after, board, req, result),
            ChatAction::DeleteColumn => delete_column_done(before, after, board, req, result),
            ChatAction::DeleteTag => delete_tag_done(before, after, board, req, result),
            ChatAction::DeleteCard => delete_card_done(before, after, board, req, result),
            ChatAction::DeleteBoard => delete_board_done(before, after, board, user, result),
            _ => create_column_done(before, after, board, req, new_id, result),
        }
    }
}

/// Carries out one request on `board` for `user`; a record that the action
/// creates gets the identifier `new_id`.
pub fn execute_action_with(
    store: &mut Store,
    board_id: Id,
    user_id: Id,
    action: &LlmAction,
    new_id: Id,
) -> (result: Result<ActionTaken, AppError>)
    requires
        old(store).wf(),
    ensures
        final(store).wf(),
        action_done(*old(store), *final(store), board_id, user_id, action@, new_id, result),
{
    let kind = match ChatAction::from_str(action.action.as_str()) {
        Ok(kind) => kind,
        Err(_) => ChatAction::Unknown,
    };
    match kind {
        ChatAction::Unknown => {
            return Ok(
                failure(action.action.as_str(), joined("Unknown action: ", action.action.as_str())),
            );
        },
        _ => {},
    }
    let name = kind.to_string();
    if kind.is_read_only() {
        return Ok(success(name.as_str(), "No modification made".to_owned()));
    }
    match kind {
        ChatAction::CreateBoard | ChatAction::MoveCardCrossBoard => {
            return Ok(
                failure(name.as_str(), "This action is only available in global chat".to_owned()),
            );
        },
        ChatAction::CreateInboxCard | ChatAction::AssignCard | ChatAction::UpdateStatus
        | ChatAction::AddComment => {
            return Ok(
                failure(
                    name.as_str(),
                    "This action is not available in a board chat".to_owned(),
                ),
            );
        },
        _ => {},
    }
    if !can_edit(store.get_user_role(board_id, user_id)) {
        return Ok(
            failure(name.as_str(), "You don't have permission to edit this board".to_owned()),
        );
    }
    match kind {
        ChatAction::CreateCard => create_card_action(store, board_id, user_id, action, new_id),
        ChatAction::MoveCard => move_card_action(store, board_id, action),
        ChatAction::CreateTag => create_tag_action(store, board_id, action, new_id),
        ChatAction::AddTag => add_tag_action(store, board_id, action),
        ChatAction::DeleteColumn => delete_column_action(store, board_id, action),
        ChatAction::DeleteTag => delete_tag_action(store, board_id, action),
        ChatAction::DeleteCard => delete_card_action(store, board_id, action),
        ChatAction::DeleteBoard => delete_board_action(store, board_id, user_id),
        _ => create_column_action(store, board_id, action, new_id),
    }
}

/// Execute an action based on LLM response. A record that the action creates gets
/// a new random identifier: whatever that is, the action is carried out as
/// `execute_action_with` says for it.
pub fn execute_action(store: &mut Store, board_id: Id, user_id: Id, action: &LlmAction) -> (result:
    Result<ActionTaken, AppError>)
    requires
        old(store).wf(),
    ensures
        final(store).wf(),
        exists|new_id: Id|
            action_done(*old(store), *final(store), board_id, user_id, action@, new_id, result),
{
    let new_id = fresh_id();
    execute_action_with(store, board_id, user_id, action, new_id)
}

/// An action that fails changes nothing: what follows it in a batch runs as if it
/// had not been asked for. The same holds of an action that ends in an error.
pub proof fn law_failure_changes_nothing(
    before: Store,
    after: Store,
    board: Id,
    user: Id,
    req: Request,
    new_id: Id,
    result: Result<ActionTaken, AppError>,
)
    requires
        action_done(before, after, board, user, req, new_id, result),
        result matches Ok(t) ==> !t.success,
    ensures
        after == before,
{
}

/// The name that `create_board` asks for.
pub open spec fn new_board_name(req: Request) -> Seq<char> {
    or_else(
        given(req.params, "name"@),
        or_else(given(req.params, "board_name"@), given(req.params, "title"@)),
    )
}

/// The description that `create_board` asks for, if any.
pub open spec fn new_board_description(req: Request) -> Option<Seq<char>> {
    if_given(or_else(given(req.params, "description"@), given(req.params, "desc"@)))
}

/// What `create_board` does: `user` gets a board with the wanted name, as its
/// owner.
pub open spec fn create_board_done(
    before: Store,
    after: Store,
    user: Id,
    req: Request,
    new_id: Id,
    result: Result<ActionTaken, AppError>,
) -> bool {
    let name = new_board_name(req);
    if name.len() == 0 {
        after == before && answers(
            result,
            failed("create_board"@, "Missing board name. Params: "@ + req.raw_params),
        )
    } else if has_board(before.boards(), new_id) {
        after == before && fails_with(result, StoreError::DuplicateId)
    } else {
        &&& answers(result, succeeded("create_board"@, "Created board '"@ + name + "'"@))
        &&& after.same_records(&before)
        &&& after.boards().len() == before.boards().len() + 1
        &&& after.boards().drop_first() == before.boards()
        &&& after.boards()[0].id == new_id
        &&& after.boards()[0].name@ == name
        &&& match after.boards()[0].description {
            Some(d) => new_board_description(req) == Some(d@),
            None => new_board_description(req) is None,
        }
        &&& after.boards()[0].owner_id == user
        &&& after.permissions() == before.permissions().push(
            BoardPermission { board_id: new_id, user_id: user, role: BoardRole::Owner },
        )
    }
}

/// Execute create_board action.
pub fn execute_create_board(store: &mut Store, user_id: Id, action: &LlmAction, new_id: Id) -> (result:
    Result<ActionTaken, AppError>)
    requires
        old(store).wf(),
    ensures
        final(store).wf(),
        create_board_done(*old(store), *final(store), user_id, action@, new_id, result),
{
    let name = action.param3("name", "board_name", "title");
    let description = optional(action.param2("description", "desc"));
    if !has_text(&name) {
        return Ok(
            failure(
                "create_board",
                joined("Missing board name. Params: ", action.raw_params.as_str()),
            ),
        );
    }
    let said = text3("Created board '", name.as_str(), "'");
    let board = Board { id: new_id, name, description, owner_id: user_id };
    match store.create_board(board) {
        Err(e) => Err(refuse(e)),
        Ok(()) => {
            proof {
                assert(final(store).boards().drop_first() =~= old(store).boards());
            }
            Ok(success("create_board", said))
        },
    }
}

/// The board that `move_card_cross_board` asks to move from.
pub open spec fn source_board(req: Request) -> Seq<char> {
    or_else(
        given(req.params, "from_board"@),
        or_else(given(req.params, "source_board"@), given(req.params, "source"@)),
    )
}

/// The board that `move_card_cross_board` asks to move to.
pub open spec fn target_board(req: Request) -> Seq<char> {
    or_else(
        given(req.params, "to_board"@),
        or_else(given(req.params, "target_board"@), given(req.params, "destination"@)),
    )
}

/// The card that `move_card_cross_board` asks for.
pub open spec fn crossing_card(req: Request) -> Seq<char> {
    or_else(
        given(req.params, "card"@),
        or_else(given(req.params, "card_title"@), given(req.params, "title"@)),
    )
}

/// The column that `move_card_cross_board` asks to move to.
pub open spec fn crossing_column(req: Request) -> Seq<char> {
    or_else(
        given(req.params, "column"@),
        or_else(given(req.params, "target_column"@), given(req.params, "to_column"@)),
    )
}

/// The last position that a card can take in `col`: behind the cards that are
/// there, or in the last place where it is one of them.
pub open spec fn last_place(store: Store, card: Id, col: Id) -> int {
    if store.cards().slot(card).container == Container::Column(col) {
        store.cards().order(Container::Column(col)).len() - 1
    } else {
        store.cards().order(Container::Column(col)).len() as int
    }
}

/// This store is `before` with `card` moved to the end of `col`, its tags taken
/// off.
pub open spec fn card_carried_over(before: Store, after: Store, card: Id, col: Id) -> bool {
    &&& after.same_boards(&before)
    &&& after.columns() == before.columns()
    &&& after.assignments() == before.assignments()
    &&& after.tags() == before.tags()
    &&& after.cards().moved_to(
        &before.cards(),
        card,
        Container::Column(col),
        last_place(before, card, col),
    )
    &&& after.card_tags() == before.card_tags().filter(|ct: CardTag| ct.card_id != card)
}

/// What `move_card_cross_board` does: the wanted card of one board goes to the end
/// of the wanted column of another, and leaves the tags of its old board behind.
/// The user must be allowed to edit both boards.
pub open spec fn cross_board_move_done(
    before: Store,
    after: Store,
    user: Id,
    req: Request,
    result: Result<ActionTaken, AppError>,
) -> bool {
    let from = source_board(req);
    let to = target_board(req);
    let title = crossing_card(req);
    let column = crossing_column(req);
    let me = "move_card_cross_board"@;
    if from.len() == 0 || to.len() == 0 || title.len() == 0 || column.len() == 0 {
        after == before && answers(
            result,
            failed(
                me,
                "Missing params. Need from_board, to_board, card, column. Got: "@
                    + req.raw_params,
            ),
        )
    } else {
        match (before.board_named(user, from), before.board_named(user, to)) {
            (None, _) => after == before && answers(
                result,
                failed(me, "Source board '"@ + from + "' not found"@),
            ),
            (Some(_), None) => after == before && answers(
                result,
                failed(me, "Target board '"@ + to + "' not found"@),
            ),
            (Some(source), Some(target)) => if !may_edit(Some(source.1)) {
                after == before && answers(
                    result,
                    failed(
                        me,
                        "You don't have permission to edit board '"@ + before.board(
                            source.0,
                        ).name@ + "'"@,
                    ),
                )
            } else if !may_edit(Some(target.1)) {
                after == before && answers(
                    result,
                    failed(
                        me,
                        "You don't have permission to edit board '"@ + before.board(
                            target.0,
                        ).name@ + "'"@,
                    ),
                )
            } else {
                match before.card_titled(source.0, title) {
                    None => after == before && answers(
                        result,
                        failed(
                            me,
                            "Card '"@ + title + "' not found in board '"@ + before.board(
                                source.0,
                            ).name@ + "'"@,
                        ),
                    ),
                    Some(card) => match before.column_named(target.0, column) {
                        None => after == before && answers(
                            result,
                            failed(
                                me,
                                "Column '"@ + column + "' not found in board '"@ + before.board(
                                    target.0,
                                ).name@ + "'"@,
                            ),
                        ),
                        Some(col) => if last_place(before, card, col) > i32::MAX {
                            after == before && fails_with(result, StoreError::Full)
                        } else {
                            &&& answers(
                                result,
                                succeeded(
                                    me,
                                    "Moved '"@ + before.cards().get(card).title@ + "' from '"@
                                        + before.board(source.0).name@ + "' to '"@ + before.board(
                                        target.0,
                                    ).name@ + "' (column '"@ + before.columns().get(col).name@
                                        + "')"@,
                                ),
                            )
                            &&& card_carried_over(before, after, card, col)
                        },
                    },
                }
            },
        }
    }
}

fn board_name(store: &Store, id: Id) -> (name: String)
    requires
        store.wf(),
        has_board(store.boards(), id),
    ensures
        name@ == store.board(id).name@,
{
    match store.find_board(id) {
        Some(b) => b.name.clone(),
        None => String::new(),
    }
}

/// Execute a cross-board card move.
pub fn execute_cross_board_move(store: &mut Store, user_id: Id, action: &LlmAction) -> (result:
    Result<ActionTaken, AppError>)
    requires
        old(store).wf(),
    ensures
        final(store).wf(),
        cross_board_move_done(*old(store), *final(store), user_id, action@, result),
{
    let from = action.param3("from_board", "source_board", "source");
    let to = action.param3("to_board", "target_board", "destination");
    let title = action.param3("card", "card_title", "title");
    let column = action.param3("column", "target_column", "to_column");
    if !has_text(&from) || !has_text(&to) || !has_text(&title) || !has_text(&column) {
        return Ok(
            failure(
                "move_card_cross_board",
                joined(
                    "Missing params. Need from_board, to_board, card, column. Got: ",
                    action.raw_params.as_str(),
                ),
            ),
        );
    }
    let found_source = store.find_board_by_name(user_id, from.as_str());
    let found_target = store.find_board_by_name(user_id, to.as_str());
    let (source, source_role) = match found_source {
        None => {
            return Ok(
                failure(
                    "move_card_cross_board",
                    text3("Source board '", from.as_str(), "' not found"),
                ),
            );
        },
        Some(pair) => pair,
    };
    let (target, target_role) = match found_target {
        None => {
            return Ok(
                failure(
                    "move_card_cross_board",
                    text3("Target board '", to.as_str(), "' not found"),
                ),
            );
        },
        Some(pair) => pair,
    };
    let source_name = board_name(store, source);
    let target_name = board_name(store, target);
    if !can_edit(Some(source_role)) {
        return Ok(
            failure(
                "move_card_cross_board",
                text3("You don't have permission to edit board '", source_name.as_str(), "'"),
            ),
        );
    }
    if !can_edit(Some(target_role)) {
        return Ok(
            failure(
                "move_card_cross_board",
                text3("You don't have permission to edit board '", target_name.as_str(), "'"),
            ),
        );
    }
    let card = match store.find_card_by_title(source, title.as_str()) {
        None => {
            return Ok(
                failure(
                    "move_card_cross_board",
                    text5(
                        "Card '",
                        title.as_str(),
                        "' not found in board '",
                        source_name.as_str(),
                        "'",
                    ),
                ),
            );
        },
        Some(card) => card,
    };
    let col = match store.find_column_by_name(target, column.as_str()) {
        None => {
            return Ok(
                failure(
                    "move_card_cross_board",
                    text5(
                        "Column '",
                        column.as_str(),
                        "' not found in board '",
                        target_name.as_str(),
                        "'",
                    ),
                ),
            );
        },
        Some(col) => col,
    };
    let n: usize = store.cards.count(Container::Column(col));
    let stays: bool = match store.card_column(card) {
        Some(c) => c == col,
        None => false,
    };
    proof {
        store.cards().lemma_placed(card);
        store.cards().lemma_order(Container::Column(col));
    }
    let place: usize = if stays {
        n - 1
    } else {
        n
    };
    if place > i32::MAX as usize {
        return Err(refuse(StoreError::Full));
    }
    let mut said = String::new();
    match (store.find_card(card), store.find_column(col)) {
        (Some(c), Some(column)) => {
            said.append("Moved '");
            said.append(c.title.as_str());
            said.append("' from '");
            said.append(source_name.as_str());
            said.append("' to '");
            said.append(target_name.as_str());
            said.append("' (column '");
            said.append(column.name.as_str());
            said.append("')");
        },
        _ => {},
    }
    match store.move_card(card, col, place as i32) {
        Err(e) => Err(refuse(e)),
        Ok(_) => {
            store.drop_card_tags_of_card(card);
            Ok(success("move_card_cross_board", said))
        },
    }
}

/// The board that an action in the global chat is meant for.
pub open spec fn named_board(req: Request) -> Seq<char> {
    or_else(given(req.params, "board"@), given(req.params, "board_name"@))
}

/// What `execute_global_action` does with a request of `user`. An unknown action
/// is reported under the name it came with. A move between boards and the
/// creation of a board are carried out as such. An action that only reads changes
/// nothing and succeeds. So are the actions on the cards that the user holds.
/// Every other action names its board: the board must be one
/// that the user holds a role on, the role must allow editing, and the action is
/// then carried out on that board.
pub open spec fn global_action_done(
    before: Store,
    after: Store,
    user: Id,
    req: Request,
    new_id: Id,
    result: Result<ActionTaken, AppError>,
) -> bool {
    let kind = ChatAction::of_name(req.action);
    if kind == ChatAction::Unknown {
        after == before && answers(result, failed(req.action, "Unknown action: "@ + req.action))
    } else if kind == ChatAction::MoveCardCrossBoard {
        cross_board_move_done(before, after, user, req, result)
    } else if kind == ChatAction::CreateBoard {
        create_board_done(before, after, user, req, new_id, result)
    } else if kind.is_read_only() {
        after == before && answers(result, succeeded(kind.name(), "No modification made"@))
    } else if kind == ChatAction::CreateInboxCard {
        create_inbox_card_done(before, after, user, req, new_id, result)
    } else if kind == ChatAction::UpdateStatus {
        update_status_done(before, after, user, req, result)
    } else if kind == ChatAction::AssignCard {
        assign_card_done(before, after, user, req, new_id, result)
    } else if !kind.requires_board() {
        after == before && answers(result, failed(kind.name(), "This action is not available"@))
    } else {
        let name = named_board(req);
        if name.len() == 0 {
            after == before && answers(
                result,
                failed(
                    kind.name(),
                    "Missing board name. Please specify which board. Params: "@ + req.raw_params,
                ),
            )
        } else {
            match before.board_named(user, name) {
                None => after == before && answers(
                    result,
                    failed(kind.name(), "Board '"@ + name + "' not found"@),
                ),
                Some(found) => if !may_edit(Some(found.1)) {
                    after == before && answers(
                        result,
                        failed(
                            kind.name(),
                            "You don't have permission to edit board '"@ + before.board(
                                found.0,
                            ).name@ + "'"@,
                        ),
                    )
                } else {
                    action_done(before, after, found.0, user, req, new_id, result)
                },
            }
        }
    }
}

/// Carries out one request of the global chat for `user`; a record that the action
/// creates gets the identifier `new_id`.
pub fn execute_global_action_with(
    store: &mut Store,
    user_id: Id,
    action: &LlmAction,
    new_id: Id,
) -> (result: Result<ActionTaken, AppError>)
    requires
        old(store).wf(),
    ensures
        final(store).wf(),
        global_action_done(*old(store), *final(store), user_id, action@, new_id, result),
{
    let kind = match ChatAction::from_str(action.action.as_str()) {
        Ok(kind) => kind,
        Err(_) => ChatAction::Unknown,
    };
    match kind {
        ChatAction::Unknown => {
            return Ok(
                failure(action.action.as_str(), joined("Unknown action: ", action.action.as_str())),
            );
        },
        ChatAction::MoveCardCrossBoard => {
            return execute_cross_board_move(store, user_id, action);
        },
        ChatAction::CreateBoard => {
            return execute_create_board(store, user_id, action, new_id);
        },
        _ => {},
    }
    let name = kind.to_string();
    if kind.is_read_only() {
        return Ok(success(name.as_str(), "No modification made".to_owned()));
    }
    match kind {
        ChatAction::CreateInboxCard => {
            return create_inbox_card_action(store, user_id, action, new_id);
        },
        ChatAction::UpdateStatus => {
            return update_status_action(store, user_id, action);
        },
        ChatAction::AssignCard => {
            return assign_card_action(store, user_id, action, new_id);
        },
        _ => {},
    }
    if !kind.requires_board() {
        return Ok(failure(name.as_str(), "This action is not available".to_owned()));
    }
    let wanted = action.param2("board", "board_name");
    if !has_text(&wanted) {
        return Ok(
            failure(
                name.as_str(),
                joined(
                    "Missing board name. Please specify which board. Params: ",
                    action.raw_params.as_str(),
                ),
            ),
        );
    }
    let (board, role) = match store.find_board_by_name(user_id, wanted.as_str()) {
        None => {
            return Ok(failure(name.as_str(), text3("Board '", wanted.as_str(), "' not found")));
        },
        Some(pair) => pair,
    };
    if !can_edit(Some(role)) {
        let title = board_name(store, board);
        return Ok(
            failure(
                name.as_str(),
                text3("You don't have permission to edit board '", title.as_str(), "'"),
            ),
        );
    }
    execute_action_with(store, board, user_id, action, new_id)
}

/// Execute an action in global context (resolves board from params). A record
/// that the action creates gets a new random identifier: whatever that is, the
/// action is carried out as `execute_global_action_with` says for it.
pub fn execute_global_action(store: &mut Store, user_id: Id, action: &LlmAction) -> (result: Result<
    ActionTaken,
    AppError,
>)
    requires
        old(store).wf(),
    ensures
        final(store).wf(),
        exists|new_id: Id|
            global_action_done(*old(store), *final(store), user_id, action@, new_id, result),
{
    let new_id = fresh_id();
    execute_global_action_with(store, user_id, action, new_id)
}

/// A request that ends in an error changes nothing, on a board or in the global
/// chat.
pub proof fn lemma_error_changes_nothing(
    scope: Option<Id>,
    before: Store,
    after: Store,
    user: Id,
    req: Request,
    new_id: Id,
    result: Result<ActionTaken, AppError>,
)
    requires
        result is Err,
        match scope {
            Some(board) => action_done(before, after, board, user, req, new_id, result),
            None => global_action_done(before, after, user, req, new_id, result),
        },
    ensures
        after == before,
{
}

/// In the global chat too an action that fails changes nothing.
pub proof fn law_global_failure_changes_nothing(
    before: Store,
    after: Store,
    user: Id,
    req: Request,
    new_id: Id,
    result: Result<ActionTaken, AppError>,
)
    requires
        global_action_done(before, after, user, req, new_id, result),
        result matches Ok(t) ==> !t.success,
    ensures
        after == before,
{
}

/// What `delete_board` does: `board` goes with what is on it, for its owner.
pub open spec fn delete_board_done(
    before: Store,
    after: Store,
    board: Id,
    user: Id,
    result: Result<ActionTaken, AppError>,
) -> bool {
    if !crate::access::may_delete_board(before.role(board, user)) {
        after == before && answers(
            result,
            failed("delete_board"@, "You don't have permission to delete this board"@),
        )
    } else {
        match before.delete_board_verdict(board) {
            Err(e) => after == before && fails_with(result, e),
            Ok(_) => {
                &&& answers(
                    result,
                    succeeded("delete_board"@, "Deleted board '"@ + before.board(board).name@ + "'"@),
                )
                &&& after.board_deleted(&before, board)
            },
        }
    }
}

/// Carries out `delete_board`.
pub fn delete_board_action(store: &mut Store, board: Id, user: Id) -> (result: Result<
    ActionTaken,
    AppError,
>)
    requires
        old(store).wf(),
    ensures
        final(store).wf(),
        delete_board_done(*old(store), *final(store), board, user, result),
{
    if !crate::access::can_delete_board(store.get_user_role(board, user)) {
        return Ok(
            failure("delete_board", "You don't have permission to delete this board".to_owned()),
        );
    }
    let said = match store.find_board(board) {
        Some(b) => text3("Deleted board '", b.name.as_str(), "'"),
        None => String::new(),
    };
    match store.delete_board(board) {
        Err(e) => Err(refuse(e)),
        Ok(()) => Ok(success("delete_board", said)),
    }
}

/// The card `card` is a new card `id` that `user` holds without a column, with
/// this title and body: it is private, open and without dates.
pub open spec fn is_new_inbox_card(
    card: Card,
    id: Id,
    title: Seq<char>,
    body: Option<Seq<char>>,
    user: Id,
) -> bool {
    &&& card.id == id
    &&& card.title@ == title
    &&& match card.body {
        Some(b) => body == Some(b@),
        None => body is None,
    }
    &&& card.visibility == CardVisibility::Private
    &&& card.status == CardStatus::Open
    &&& card.start_date is None
    &&& card.end_date is None
    &&& card.due_date is None
    &&& card.owner_id == Some(user)
    &&& card.created_by == user
}

/// What `create_inbox_card` does: `user` gets a card without a column.
pub open spec fn create_inbox_card_done(
    before: Store,
    after: Store,
    user: Id,
    req: Request,
    new_id: Id,
    result: Result<ActionTaken, AppError>,
) -> bool {
    let title = wanted_title(req);
    if title.len() == 0 {
        after == before && answers(
            result,
            failed("create_inbox_card"@, "Missing card title. Received params: "@ + req.raw_params),
        )
    } else {
        match before.cards().insert_verdict(new_id, Container::Inbox(user), None) {
            Err(e) => after == before && fails_with(result, store_error(e)),
            Ok(p) => {
                &&& answers(
                    result,
                    succeeded("create_inbox_card"@, "Created inbox card '"@ + title + "'"@),
                )
                &&& after.same_but_cards(&before)
                &&& is_new_inbox_card(
                    after.cards().get(new_id),
                    new_id,
                    title,
                    wanted_body(req),
                    user,
                )
                &&& after.cards().inserted(
                    &before.cards(),
                    after.cards().get(new_id),
                    Container::Inbox(user),
                    p as int,
                )
            },
        }
    }
}

/// Carries out `create_inbox_card`.
pub fn create_inbox_card_action(store: &mut Store, user: Id, action: &LlmAction, new_id: Id) -> (result:
    Result<ActionTaken, AppError>)
    requires
        old(store).wf(),
    ensures
        final(store).wf(),
        create_inbox_card_done(*old(store), *final(store), user, action@, new_id, result),
{
    let title = action.param3("title", "name", "card_title");
    let body = optional(action.param3("body", "description", "content"));
    if !has_text(&title) {
        return Ok(
            failure(
                "create_inbox_card",
                joined("Missing card title. Received params: ", action.raw_params.as_str()),
            ),
        );
    }
    let said = text3("Created inbox card '", title.as_str(), "'");
    let card = Card {
        id: new_id,
        title,
        body,
        visibility: CardVisibility::Private,
        status: CardStatus::Open,
        start_date: None,
        end_date: None,
        due_date: None,
        owner_id: Some(user),
        created_by: user,
    };
    match store.create_standalone(card) {
        Err(e) => Err(refuse(e)),
        Ok(()) => Ok(success("create_inbox_card", said)),
    }
}

/// The status that `update_status` asks for, as written.
pub open spec fn wanted_status(req: Request) -> Seq<char> {
    or_else(given(req.params, "status"@), given(req.params, "new_status"@))
}

/// What `update_status` does: the wanted card among those that `user` holds gets
/// the wanted status.
pub open spec fn update_status_done(
    before: Store,
    after: Store,
    user: Id,
    req: Request,
    result: Result<ActionTaken, AppError>,
) -> bool {
    let title = doomed_card(req);
    let status = wanted_status(req);
    let me = "update_status"@;
    if title.len() == 0 || status.len() == 0 {
        after == before && answers(
            result,
            failed(me, "Missing card or status. Received params: "@ + req.raw_params),
        )
    } else {
        match before.held_card_titled(user, title) {
            None => after == before && answers(
                result,
                failed(me, "Card '"@ + title + "' not found"@),
            ),
            Some(card) => match CardStatus::named(
                crate::text::plain_of(crate::text::lowercase(status)),
            ) {
                None => after == before && answers(
                    result,
                    failed(me, "Invalid status: "@ + status),
                ),
                Some(s) => {
                    &&& answers(
                        result,
                        succeeded(
                            me,
                            "Set status of '"@ + before.cards().get(card).title@ + "' to '"@
                                + s.name() + "'"@,
                        ),
                    )
                    &&& after.same_but_cards(&before)
                    &&& after.cards().replaced(
                        &before.cards(),
                        Card { status: s, ..before.cards().get(card) },
                    )
                },
            },
        }
    }
}

/// Carries out `update_status`.
pub fn update_status_action(store: &mut Store, user: Id, action: &LlmAction) -> (result: Result<
    ActionTaken,
    AppError,
>)
    requires
        old(store).wf(),
    ensures
        final(store).wf(),
        update_status_done(*old(store), *final(store), user, action@, result),
{
    let title = action.param4("card", "card_title", "title", "name");
    let wanted = action.param2("status", "new_status");
    if !has_text(&title) || !has_text(&wanted) {
        return Ok(
            failure(
                "update_status",
                joined("Missing card or status. Received params: ", action.raw_params.as_str()),
            ),
        );
    }
    let card = match store.find_held_card_by_title(user, title.as_str()) {
        None => {
            return Ok(failure("update_status", text3("Card '", title.as_str(), "' not found")));
        },
        Some(card) => card,
    };
    let status = match CardStatus::from_str(wanted.as_str()) {
        Err(message) => {
            return Ok(failure("update_status", message));
        },
        Ok(status) => status,
    };
    let name = status.to_string();
    let said = match store.find_card(card) {
        Some(c) => text5("Set status of '", c.title.as_str(), "' to '", name.as_str(), "'"),
        None => String::new(),
    };
    match store.update_status(card, status) {
        Err(e) => Err(refuse(e)),
        Ok(()) => Ok(success("update_status", said)),
    }
}

/// The board that `assign_card` asks to attach to.
pub open spec fn assigned_board(req: Request) -> Seq<char> {
    or_else(
        given(req.params, "board"@),
        or_else(given(req.params, "board_name"@), given(req.params, "to_board"@)),
    )
}

/// The column that `assign_card` asks for, as written; empty where it asks for
/// none.
pub open spec fn assigned_column(req: Request) -> Seq<char> {
    or_else(given(req.params, "column"@), given(req.params, "target_column"@))
}

/// What `assign_card` does: the wanted card among those that `user` holds is
/// attached to the wanted board, at the end of the wanted column or, where none
/// is wanted, of the lane without a column. The user must be allowed to edit the
/// board.
pub open spec fn assign_card_done(
    before: Store,
    after: Store,
    user: Id,
    req: Request,
    new_id: Id,
    result: Result<ActionTaken, AppError>,
) -> bool {
    let title = tagged_card(req);
    let name = assigned_board(req);
    let column = assigned_column(req);
    let me = "assign_card"@;
    if title.len() == 0 || name.len() == 0 {
        after == before && answers(
            result,
            failed(me, "Missing card or board. Received params: "@ + req.raw_params),
        )
    } else {
        match before.board_named(user, name) {
            None => after == before && answers(
                result,
                failed(me, "Board '"@ + name + "' not found"@),
            ),
            Some(found) => if !may_edit(Some(found.1)) {
                after == before && answers(
                    result,
                    failed(
                        me,
                        "You don't have permission to edit board '"@ + before.board(found.0).name@
                            + "'"@,
                    ),
                )
            } else {
                match before.held_card_titled(user, title) {
                    None => after == before && answers(
                        result,
                        failed(me, "Card '"@ + title + "' not found"@),
                    ),
                    Some(card) => if column.len() > 0 && before.column_named(found.0, column)
                        is None {
                        after == before && answers(
                            result,
                            failed(me, "Column '"@ + column + "' not found"@),
                        )
                    } else {
                        let lane = if column.len() > 0 {
                            before.column_named(found.0, column)
                        } else {
                            None
                        };
                        match before.assign_verdict(new_id, card, found.0, lane, None) {
                            Err(StoreError::AlreadyAttached) => after == before && answers(
                                result,
                                failed(
                                    me,
                                    "Card '"@ + before.cards().get(card).title@
                                        + "' is already on board '"@ + before.board(found.0).name@
                                        + "'"@,
                                ),
                            ),
                            Err(e) => after == before && fails_with(result, e),
                            Ok(p) => {
                                &&& answers(
                                    result,
                                    succeeded(
                                        me,
                                        "Assigned '"@ + before.cards().get(card).title@
                                            + "' to board '"@ + before.board(found.0).name@ + "'"@,
                                    ),
                                )
                                &&& after.same_but_assignments(&before)
                                &&& after.assignments().inserted(
                                    &before.assignments(),
                                    crate::models::card::CardBoardAssignment {
                                        id: new_id,
                                        card_id: card,
                                        board_id: found.0,
                                    },
                                    Container::Lane(found.0, lane),
                                    p as int,
                                )
                            },
                        }
                    },
                }
            },
        }
    }
}

/// Carries out `assign_card`.
pub fn assign_card_action(store: &mut Store, user: Id, action: &LlmAction, new_id: Id) -> (result:
    Result<ActionTaken, AppError>)
    requires
        old(store).wf(),
    ensures
        final(store).wf(),
        assign_card_done(*old(store), *final(store), user, action@, new_id, result),
{
    let title = action.param3("card_title", "card", "title");
    let name = action.param3("board", "board_name", "to_board");
    let column = action.param2("column", "target_column");
    if !has_text(&title) || !has_text(&name) {
        return Ok(
            failure(
                "assign_card",
                joined("Missing card or board. Received params: ", action.raw_params.as_str()),
            ),
        );
    }
    let (board, role) = match store.find_board_by_name(user, name.as_str()) {
        None => {
            return Ok(failure("assign_card", text3("Board '", name.as_str(), "' not found")));
        },
        Some(pair) => pair,
    };
    let board_title = board_name(store, board);
    if !can_edit(Some(role)) {
        return Ok(
            failure(
                "assign_card",
                text3("You don't have permission to edit board '", board_title.as_str(), "'"),
            ),
        );
    }
    let card = match store.find_held_card_by_title(user, title.as_str()) {
        None => {
            return Ok(failure("assign_card", text3("Card '", title.as_str(), "' not found")));
        },
        Some(card) => card,
    };
    let lane = if has_text(&column) {
        match store.find_column_by_name(board, column.as_str()) {
            None => {
                return Ok(
                    failure("assign_card", text3("Column '", column.as_str(), "' not found")),
                );
            },
            Some(col) => Some(col),
        }
    } else {
        None
    };
    let card_title = match store.find_card(card) {
        Some(c) => c.title.clone(),
        None => String::new(),
    };
    match store.assign_card_to_board(new_id, card, board, lane, None) {
        Err(StoreError::AlreadyAttached) => Ok(
            failure(
                "assign_card",
                text5(
                    "Card '",
                    card_title.as_str(),
                    "' is already on board '",
                    board_title.as_str(),
                    "'",
                ),
            ),
        ),
        Err(e) => Err(refuse(e)),
        Ok(_) => Ok(
            success(
                "assign_card",
                text5(
                    "Assigned '",
                    card_title.as_str(),
                    "' to board '",
                    board_title.as_str(),
                    "'",
                ),
            ),
        ),
    }
}

} // verus!
