use personal_os::error::AppError;
use personal_os::handlers::{boards, cards, columns, comments, inbox, tags};
use personal_os::models::{
    AddBoardPermission, AssignCardToBoard, BoardRole, CardStatus, CardVisibility, CreateBoard,
    CreateCard, CreateColumn, CreateGlobalCard, CreateGlobalTag, CreateTag, MoveCard, MoveColumn,
    UpdateBoard, UpdateCard, UpdateCardStatus, UpdateColumn, UpdateTag,
};
use personal_os::store::Store;

const OWNER: u128 = 1;
const EDITOR: u128 = 2;
const READER: u128 = 3;
const STRANGER: u128 = 4;
const BOARD: u128 = 100;
const TO_DO: u128 = 200;
const DONE: u128 = 201;
const CARD: u128 = 300;

fn new_card(title: &str) -> CreateCard {
    CreateCard {
        title: title.to_string(),
        body: None,
        position: None,
        visibility: None,
        status: None,
        start_date: None,
        end_date: None,
        due_date: None,
    }
}

fn setup() -> Store {
    let mut store = Store::new();
    let input = CreateBoard { name: "Work".to_string(), description: Some("things".to_string()) };
    assert_eq!(boards::create_board(&mut store, OWNER, BOARD, input), Ok(BOARD));
    for (user, role) in [(EDITOR, BoardRole::Editor), (READER, BoardRole::Reader)] {
        let grant = AddBoardPermission { user_id: user, role };
        assert_eq!(boards::add_permission(&mut store, OWNER, BOARD, grant), Ok(()));
    }
    for (id, name) in [(TO_DO, "Todo"), (DONE, "Done")] {
        let input = CreateColumn { name: name.to_string(), position: None };
        columns::create_column(&mut store, OWNER, BOARD, id, input).unwrap();
    }
    assert_eq!(cards::create_card(&mut store, EDITOR, TO_DO, CARD, new_card("Fix bug")), Ok(0));
    store
}

#[test]
fn a_board_needs_a_name() {
    let mut store = Store::new();
    let input = CreateBoard { name: String::new(), description: None };
    assert_eq!(
        boards::create_board(&mut store, OWNER, BOARD, input),
        Err(AppError::Validation("Board name is required".to_string()))
    );
}

#[test]
fn only_the_owner_manages_roles_and_deletes_the_board() {
    let mut store = setup();
    let grant = AddBoardPermission { user_id: STRANGER, role: BoardRole::Reader };
    assert_eq!(boards::add_permission(&mut store, EDITOR, BOARD, grant), Err(AppError::Forbidden));
    let crown = AddBoardPermission { user_id: EDITOR, role: BoardRole::Owner };
    assert_eq!(
        boards::add_permission(&mut store, OWNER, BOARD, crown),
        Err(AppError::BadRequest("Cannot add another owner".to_string()))
    );
    assert_eq!(
        boards::remove_permission(&mut store, OWNER, BOARD, OWNER),
        Err(AppError::BadRequest(
            "Cannot remove owner permission or permission not found".to_string()
        ))
    );
    assert_eq!(boards::remove_permission(&mut store, READER, BOARD, EDITOR), Err(AppError::Forbidden));
    assert_eq!(boards::delete_board(&mut store, EDITOR, BOARD), Err(AppError::Forbidden));
    assert_eq!(boards::delete_board(&mut store, STRANGER, BOARD), Err(AppError::Forbidden));
    assert_eq!(boards::remove_permission(&mut store, OWNER, BOARD, READER), Ok(()));
    assert_eq!(boards::delete_board(&mut store, OWNER, BOARD), Ok(()));
    assert_eq!(boards::list_boards(&store, OWNER), vec![]);
}

#[test]
fn a_board_is_shown_to_those_with_a_role() {
    let mut store = setup();
    let details = boards::get_board(&store, READER, BOARD).unwrap();
    assert_eq!(details.name, "Work");
    assert_eq!(details.role, BoardRole::Reader);
    assert_eq!(details.columns, vec![TO_DO, DONE]);
    assert_eq!(boards::get_board(&store, STRANGER, BOARD), Err(AppError::Forbidden));
    assert_eq!(boards::get_board(&store, OWNER, 999), Err(AppError::NotFound));
    let rename = UpdateBoard { name: Some("Office".to_string()), description: None };
    assert_eq!(boards::update_board(&mut store, READER, BOARD, rename.clone()), Err(AppError::Forbidden));
    assert_eq!(boards::update_board(&mut store, EDITOR, BOARD, rename), Ok(()));
    let details = boards::get_board(&store, OWNER, BOARD).unwrap();
    assert_eq!(details.name, "Office");
    assert_eq!(details.description, Some("things".to_string()));
}

#[test]
fn columns_are_for_editors() {
    let mut store = setup();
    let input = CreateColumn { name: "Later".to_string(), position: Some(1) };
    assert_eq!(
        columns::create_column(&mut store, READER, BOARD, 202, input.clone()),
        Err(AppError::Forbidden)
    );
    assert_eq!(columns::create_column(&mut store, EDITOR, BOARD, 202, input), Ok(1));
    assert_eq!(columns::list_columns(&store, READER, BOARD), Ok(vec![TO_DO, 202, DONE]));
    assert_eq!(columns::list_columns(&store, STRANGER, BOARD), Err(AppError::Forbidden));
    let nameless = CreateColumn { name: String::new(), position: None };
    assert_eq!(
        columns::create_column(&mut store, OWNER, BOARD, 203, nameless),
        Err(AppError::Validation("Column name is required".to_string()))
    );
    assert_eq!(columns::move_column(&mut store, EDITOR, TO_DO, MoveColumn { position: 2 }), Ok(2));
    assert_eq!(columns::list_columns(&store, OWNER, BOARD), Ok(vec![202, DONE, TO_DO]));
    assert_eq!(
        columns::move_column(&mut store, EDITOR, TO_DO, MoveColumn { position: 3 }),
        Err(AppError::BadRequest("Position out of range".to_string()))
    );
    assert_eq!(
        columns::move_column(&mut store, EDITOR, TO_DO, MoveColumn { position: -1 }),
        Err(AppError::BadRequest("Position out of range".to_string()))
    );
    let rename = UpdateColumn { name: Some("Now".to_string()) };
    assert_eq!(columns::update_column(&mut store, READER, TO_DO, rename.clone()), Err(AppError::Forbidden));
    assert_eq!(columns::update_column(&mut store, OWNER, TO_DO, rename), Ok(()));
    assert_eq!(store.find_column(TO_DO).unwrap().name, "Now");
    assert_eq!(columns::delete_column(&mut store, READER, TO_DO), Err(AppError::Forbidden));
    assert_eq!(columns::delete_column(&mut store, EDITOR, 999), Err(AppError::NotFound));
    assert_eq!(columns::delete_column(&mut store, EDITOR, TO_DO), Ok(()));
    assert!(store.find_card(CARD).is_none());
}

#[test]
fn cards_follow_the_access_policy() {
    let mut store = setup();
    assert_eq!(
        cards::create_card(&mut store, READER, TO_DO, 301, new_card("No")),
        Err(AppError::Forbidden)
    );
    assert_eq!(
        cards::create_card(&mut store, OWNER, TO_DO, 301, new_card("")),
        Err(AppError::Validation("Card title is required".to_string()))
    );
    assert_eq!(
        cards::create_card(&mut store, OWNER, 999, 301, new_card("x")),
        Err(AppError::NotFound)
    );
    // The card is restricted: any role on its board will do to see it.
    assert_eq!(cards::get_card(&store, READER, CARD).unwrap().title, "Fix bug");
    assert_eq!(cards::get_card(&store, STRANGER, CARD), Err(AppError::Forbidden));
    let private = UpdateCard {
        title: None,
        body: Some("details".to_string()),
        visibility: Some(CardVisibility::Private),
        status: None,
        start_date: None,
        end_date: None,
        due_date: Some(7),
    };
    assert_eq!(cards::update_card(&mut store, READER, CARD, private.clone()), Err(AppError::Forbidden));
    assert_eq!(cards::update_card(&mut store, OWNER, CARD, private), Ok(()));
    assert_eq!(cards::get_card(&store, READER, CARD), Err(AppError::Forbidden));
    let seen = cards::get_card(&store, EDITOR, CARD).unwrap();
    assert_eq!(seen.title, "Fix bug");
    assert_eq!(seen.body, Some("details".to_string()));
    assert_eq!(seen.due_date, Some(7));
    assert_eq!(comments::can_view_card(&store, CARD, OWNER), Ok(true));
    assert_eq!(comments::can_view_card(&store, CARD, READER), Ok(false));
    assert_eq!(comments::can_edit_card(&store, CARD, READER), Ok(false));
    assert_eq!(comments::can_edit_card(&store, CARD, EDITOR), Ok(true));
    assert_eq!(comments::can_edit_card(&store, 999, EDITOR), Err(AppError::NotFound));
    let public = UpdateCard {
        title: None,
        body: None,
        visibility: Some(CardVisibility::Public),
        status: None,
        start_date: None,
        end_date: None,
        due_date: None,
    };
    assert_eq!(cards::update_card(&mut store, EDITOR, CARD, public), Ok(()));
    assert_eq!(cards::get_card(&store, STRANGER, CARD).unwrap().id, CARD);
    assert_eq!(
        cards::move_card(&mut store, READER, CARD, MoveCard { column_id: DONE, position: 0 }),
        Err(AppError::Forbidden)
    );
    assert_eq!(
        cards::move_card(&mut store, EDITOR, CARD, MoveCard { column_id: DONE, position: 0 }),
        Ok(0)
    );
    assert_eq!(store.card_column(CARD), Some(DONE));
    assert_eq!(cards::delete_card(&mut store, READER, CARD), Err(AppError::Forbidden));
    assert_eq!(cards::delete_card(&mut store, EDITOR, CARD), Ok(()));
    assert_eq!(cards::get_card(&store, OWNER, CARD), Err(AppError::NotFound));
}

#[test]
fn a_card_does_not_move_to_another_board() {
    let mut store = setup();
    let other = CreateBoard { name: "Home".to_string(), description: None };
    boards::create_board(&mut store, OWNER, 101, other).unwrap();
    let input = CreateColumn { name: "Chores".to_string(), position: None };
    columns::create_column(&mut store, OWNER, 101, 210, input).unwrap();
    assert_eq!(
        cards::move_card(&mut store, OWNER, CARD, MoveCard { column_id: 210, position: 0 }),
        Err(AppError::BadRequest("Cannot move card to a different board".to_string()))
    );
}

#[test]
fn a_card_without_a_board_is_for_its_owner_alone() {
    let mut store = setup();
    let input = CreateGlobalCard {
        title: "Note".to_string(),
        body: None,
        visibility: Some(CardVisibility::Public),
        status: None,
        start_date: None,
        end_date: None,
        due_date: None,
    };
    assert_eq!(inbox::create_card(&mut store, READER, 350, input), Ok(350));
    assert_eq!(cards::get_card(&store, READER, 350).unwrap().title, "Note");
    assert_eq!(cards::get_card(&store, OWNER, 350), Err(AppError::Forbidden));
    assert_eq!(comments::can_edit_card(&store, 350, OWNER), Ok(false));
    let query = inbox::ListCardsQuery { status: None };
    assert_eq!(inbox::list_cards(&store, READER, &query), vec![350]);
    let done = inbox::ListCardsQuery { status: Some("Done".to_string()) };
    assert_eq!(inbox::list_cards(&store, READER, &done), Vec::<u128>::new());
    let status = UpdateCardStatus { status: CardStatus::Done };
    assert_eq!(inbox::update_card_status(&mut store, OWNER, 350, status), Err(AppError::Forbidden));
    assert_eq!(inbox::update_card_status(&mut store, READER, 350, status), Ok(()));
    assert_eq!(inbox::list_cards(&store, READER, &done), vec![350]);
    // Once the card is on a board, the roles on that board count.
    let place = AssignCardToBoard { column_id: Some(TO_DO), position: None };
    assert_eq!(
        inbox::assign_card_to_board(&mut store, STRANGER, 350, BOARD, 400, place),
        Err(AppError::Forbidden)
    );
    assert_eq!(inbox::assign_card_to_board(&mut store, READER, 350, BOARD, 400, place), Ok(0));
    assert_eq!(
        inbox::assign_card_to_board(&mut store, READER, 350, BOARD, 401, place),
        Err(AppError::BadRequest("Card is already assigned to this board".to_string()))
    );
    assert_eq!(cards::get_card(&store, OWNER, 350).unwrap().title, "Note");
    assert_eq!(comments::can_edit_card(&store, 350, EDITOR), Ok(true));
    assert_eq!(inbox::remove_card_from_board(&mut store, EDITOR, 350, BOARD), Ok(()));
    assert_eq!(cards::get_card(&store, OWNER, 350), Err(AppError::Forbidden));
}

#[test]
fn tags_follow_their_scope() {
    let mut store = setup();
    let input = CreateTag { name: "urgent".to_string(), color: None };
    assert_eq!(tags::create_tag(&mut store, READER, BOARD, 500, input.clone()), Err(AppError::Forbidden));
    assert_eq!(tags::create_tag(&mut store, EDITOR, BOARD, 500, input), Ok(500));
    assert_eq!(store.find_tag(500).unwrap().color, "#6c757d");
    let mine = CreateGlobalTag { name: "me".to_string(), color: Some("#123456".to_string()) };
    assert_eq!(inbox::create_global_tag(&mut store, EDITOR, 501, mine), Ok(501));
    assert_eq!(inbox::list_global_tags(&store, EDITOR), vec![501]);
    assert_eq!(tags::list_tags(&store, READER, BOARD), Ok(vec![500]));
    assert_eq!(tags::list_tags(&store, STRANGER, BOARD), Err(AppError::Forbidden));
    assert_eq!(tags::add_tag_to_card(&mut store, READER, CARD, 500), Err(AppError::Forbidden));
    assert_eq!(tags::add_tag_to_card(&mut store, EDITOR, CARD, 500), Ok(()));
    assert_eq!(tags::add_tag_to_card(&mut store, OWNER, CARD, 501), Err(AppError::Forbidden));
    assert_eq!(tags::add_tag_to_card(&mut store, EDITOR, CARD, 501), Ok(()));
    assert_eq!(tags::add_tag_to_card(&mut store, EDITOR, CARD, 999), Err(AppError::NotFound));
    let note = CreateGlobalCard {
        title: "Note".to_string(),
        body: None,
        visibility: None,
        status: None,
        start_date: None,
        end_date: None,
        due_date: None,
    };
    inbox::create_card(&mut store, EDITOR, 350, note).unwrap();
    assert_eq!(
        tags::add_tag_to_card(&mut store, EDITOR, 350, 500),
        Err(AppError::BadRequest("Cannot add board tag to a standalone card".to_string()))
    );
    assert_eq!(tags::add_tag_to_card(&mut store, EDITOR, 350, 501), Ok(()));
    assert_eq!(tags::remove_tag_from_card(&mut store, READER, CARD, 500), Err(AppError::Forbidden));
    assert_eq!(tags::remove_tag_from_card(&mut store, EDITOR, CARD, 500), Ok(()));
    assert_eq!(tags::remove_tag_from_card(&mut store, EDITOR, CARD, 500), Err(AppError::NotFound));
    let recolor = UpdateTag { name: None, color: Some("#000000".to_string()) };
    assert_eq!(tags::update_tag(&mut store, OWNER, 501, recolor.clone()), Err(AppError::Forbidden));
    assert_eq!(tags::update_tag(&mut store, EDITOR, 501, recolor), Ok(()));
    assert_eq!(store.find_tag(501).unwrap().color, "#000000");
    assert_eq!(store.find_tag(501).unwrap().name, "me");
    assert_eq!(tags::delete_tag(&mut store, READER, 500), Err(AppError::Forbidden));
    assert_eq!(tags::delete_tag(&mut store, OWNER, 500), Ok(()));
    assert_eq!(tags::delete_tag(&mut store, OWNER, 500), Err(AppError::NotFound));
}
